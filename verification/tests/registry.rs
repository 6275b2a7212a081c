use std::cell::Cell;
use std::rc::Rc;
use text_to_morse::channel::Channel;
use text_to_morse::error::Error;
use text_to_morse::registry::{check_device_count, Registry, MAX_DEVICES};

#[test]
fn new_registry_has_no_entries() {
    let registry: Registry<u32> = Registry::new();
    assert_eq!(registry.len(), 0);
    assert_eq!(registry.find(0), None);
}

#[test]
fn entry_is_made_on_first_use_only() {
    let made = Cell::new(0u32);
    let mut registry: Registry<Rc<u32>> = Registry::new();
    let first = registry
        .get_or_create(1, |id| {
            made.set(made.get() + 1);
            Ok(Rc::new(u32::from(id) * 10))
        })
        .map(Rc::clone);
    let first = first.unwrap();
    assert_eq!(*first, 10);
    assert_eq!(made.get(), 1);

    let second = registry
        .get_or_create(1, |_| {
            made.set(made.get() + 1);
            Ok(Rc::new(99))
        })
        .map(Rc::clone);
    let second = second.unwrap();
    assert!(Rc::ptr_eq(&first, &second));
    assert_eq!(made.get(), 1);
    assert_eq!(registry.len(), 1);
}

#[test]
fn identifiers_have_entries_of_their_own() {
    let mut registry: Registry<Channel> = Registry::new();
    for id in [5u16, 0, 65535, 7] {
        let channel = registry.get_or_create(id, |id| Ok(Channel::new(id))).unwrap();
        assert_eq!(channel.id(), id);
        assert_eq!(channel.len(), 0);
    }
    assert_eq!(registry.len(), 4);
    for id in [0u16, 5, 7, 65535] {
        assert_eq!(registry.find(id).map(Channel::id), Some(id));
        let channel = registry.get_or_create(id, |_| Err(Error::OutOfMemory)).unwrap();
        assert_eq!(channel.id(), id);
    }
    assert_eq!(registry.len(), 4);
    assert!(registry.find(6).is_none());
}

#[test]
fn failure_to_make_the_handle_leaves_the_registry_as_it_was() {
    let mut registry: Registry<u8> = Registry::new();
    assert_eq!(registry.get_or_create(1, |_| Ok(11)), Ok(&11));
    assert_eq!(registry.get_or_create(2, |_| Err(Error::OutOfMemory)), Err(Error::OutOfMemory));
    assert_eq!(registry.len(), 1);
    assert_eq!(registry.find(2), None);
    assert_eq!(registry.get_or_create(2, |_| Ok(22)), Ok(&22));
    assert_eq!(registry.find(1), Some(&11));
    assert_eq!(registry.find(2), Some(&22));
}

#[test]
fn insert_without_memory_fails_and_changes_nothing() {
    let mut registry: Registry<u8> = Registry::new();
    assert_eq!(registry.insert(1, 11, false), Err(Error::OutOfMemory));
    assert_eq!(registry.len(), 0);
    assert_eq!(registry.insert(1, 11, true), Ok(&11));
    assert_eq!(registry.insert(2, 22, false), Err(Error::OutOfMemory));
    assert_eq!(registry.len(), 1);
    assert_eq!(registry.find(2), None);
}

#[test]
fn insert_keeps_the_entry_that_an_identifier_has() {
    let mut registry: Registry<u8> = Registry::new();
    assert_eq!(registry.insert(1, 11, true), Ok(&11));
    assert_eq!(registry.insert(1, 12, true), Ok(&11));
    assert_eq!(registry.insert(1, 13, false), Ok(&11));
    assert_eq!(registry.len(), 1);
    assert_eq!(registry.find(1), Some(&11));
}

#[test]
fn reserve_leaves_the_entries_alone() {
    let mut registry: Registry<u8> = Registry::new();
    assert_eq!(registry.insert(1, 11, true), Ok(&11));
    let reserved = registry.reserve();
    assert!(reserved);
    assert_eq!(registry.len(), 1);
    assert_eq!(registry.find(1), Some(&11));
    assert_eq!(registry.insert(2, 22, reserved), Ok(&22));
}

#[test]
fn channels_of_a_registry_are_independent() {
    let mut registry: Registry<Rc<Cell<u8>>> = Registry::new();
    let a = Rc::clone(registry.get_or_create(1, |_| Ok(Rc::new(Cell::new(0)))).unwrap());
    let b = Rc::clone(registry.get_or_create(2, |_| Ok(Rc::new(Cell::new(0)))).unwrap());
    a.set(1);
    b.set(2);
    assert_eq!(registry.find(1).unwrap().get(), 1);
    assert_eq!(registry.find(2).unwrap().get(), 2);
}

#[test]
fn device_count_up_to_the_maximum_is_accepted() {
    assert_eq!(MAX_DEVICES, 16);
    assert_eq!(check_device_count(0), Ok(()));
    assert_eq!(check_device_count(4), Ok(()));
    assert_eq!(check_device_count(16), Ok(()));
    assert_eq!(check_device_count(17), Err(Error::Overflow));
    assert_eq!(check_device_count(usize::MAX), Err(Error::Overflow));
}
