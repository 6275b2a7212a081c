//! The registry of channels: at most one entry for every identifier, made on first use.

use crate::error::Error;
use vstd::prelude::*;

verus! {

/// One entry of the registry.
struct Entry<H> {
    id: u16,
    handle: H,
}

/// A collection of channel handles, one for every identifier that was asked for.
///
/// `H` is what the holders of a channel share. Its view is the sequence of the entries,
/// each an identifier with its handle, in the order in which they were made.
pub struct Registry<H> {
    entries: Vec<Entry<H>>,
}

/// Whether no identifier occurs twice in `entries`.
pub open spec fn keys_unique<H>(entries: Seq<(u16, H)>) -> bool {
    forall|i: int, j: int|
        0 <= i < j < entries.len() ==> (#[trigger] entries[i]).0 != (#[trigger] entries[j]).0
}

/// The place of the first entry for `id` among `entries`, or the number of entries where
/// there is none.
pub open spec fn place_of<H>(entries: Seq<(u16, H)>, id: u16) -> nat
    decreases entries.len(),
{
    if entries.len() == 0 || entries[0].0 == id {
        0
    } else {
        1 + place_of(entries.drop_first(), id)
    }
}

/// Whether `entries` has an entry for `id`.
pub open spec fn has_entry<H>(entries: Seq<(u16, H)>, id: u16) -> bool {
    place_of(entries, id) < entries.len()
}

impl<H> View for Registry<H> {
    type V = Seq<(u16, H)>;

    closed spec fn view(&self) -> Seq<(u16, H)> {
        Seq::new(self.entries@.len(), |i: int| (self.entries@[i].id, self.entries@[i].handle))
    }
}

impl<H> Registry<H> {
    #[verifier::type_invariant]
    spec fn inv(&self) -> bool {
        keys_unique(self@)
    }

    /// Creates a registry without entries.
    pub fn new() -> (registry: Self)
        ensures
            registry@ == Seq::<(u16, H)>::empty(),
    {
        let registry = Registry { entries: Vec::new() };
        registry
    }

    /// Number of entries.
    pub fn len(&self) -> (n: usize)
        ensures
            n == self@.len(),
            keys_unique(self@),
    {
        proof {
            use_type_invariant(self);
        }
        self.entries.len()
    }

    /// Looks for the entry of `id`.
    pub fn find(&self, id: u16) -> (found: Option<&H>)
        ensures
            keys_unique(self@),
            has_entry(self@, id) ==> found == Some(&self@[place_of(self@, id) as int].1),
            !has_entry(self@, id) ==> found is None,
    {
        proof {
            use_type_invariant(self);
        }
        let index = self.index_of(id);
        if index < self.entries.len() {
            Some(&self.entries[index].handle)
        } else {
            None
        }
    }

    /// Tries to get memory for one more entry and says whether it could be had. The
    /// entries stay as they are either way.
    pub fn reserve(&mut self) -> (reserved: bool)
        ensures
            final(self)@ == old(self)@,
    {
        proof {
            use_type_invariant(&*self);
        }
        let mut entries: Vec<Entry<H>> = Vec::new();
        core::mem::swap(&mut self.entries, &mut entries);
        let reserved = entries.try_reserve(1).is_ok();
        core::mem::swap(&mut self.entries, &mut entries);
        reserved
    }

    /// Enters `handle` for `id` and returns the handle that the registry then has for
    /// `id`. `reserved` says whether memory for the entry could be had.
    ///
    /// An identifier that has an entry keeps it, and `handle` is given up. Without
    /// memory for a new entry the call fails with `OutOfMemory` and changes nothing.
    pub fn insert(&mut self, id: u16, handle: H, reserved: bool) -> (res: Result<&H, Error>)
        ensures
            keys_unique(final(self)@),
            has_entry(old(self)@, id) ==> ({
                &&& final(self)@ == old(self)@
                &&& res == Ok::<&H, Error>(&old(self)@[place_of(old(self)@, id) as int].1)
            }),
            !has_entry(old(self)@, id) && reserved ==> ({
                &&& final(self)@ == old(self)@.push((id, handle))
                &&& res == Ok::<&H, Error>(&handle)
            }),
            !has_entry(old(self)@, id) && !reserved ==> ({
                &&& final(self)@ == old(self)@
                &&& res == Err::<&H, Error>(Error::OutOfMemory)
            }),
    {
        proof {
            use_type_invariant(&*self);
        }
        let index = self.index_of(id);
        if index < self.entries.len() {
            return Ok(&self.entries[index].handle);
        }
        if !reserved {
            return Err(Error::OutOfMemory);
        }
        let mut entries: Vec<Entry<H>> = Vec::new();
        core::mem::swap(&mut self.entries, &mut entries);
        entries.push(Entry { id, handle });
        proof {
            lemma_place_of(old(self)@, id);
            assert forall|i: int, j: int| 0 <= i < j < entries@.len() implies entries@[i].id
                != entries@[j].id by {
                assert(old(self)@[i].0 == entries@[i].id);
                if j < entries@.len() - 1 {
                    assert(old(self)@[j].0 == entries@[j].id);
                }
            }
        }
        core::mem::swap(&mut self.entries, &mut entries);
        Ok(&self.entries[index].handle)
    }

    /// Returns the handle of `id`, after making the entry with `make` if there is none.
    ///
    /// An identifier gets its entry at most once: a later call for it finds the entry of
    /// the first and does not call `make`. Where `make` fails, or where memory for the
    /// entry cannot be had (`OutOfMemory`), the registry stays as it was.
    pub fn get_or_create<F: FnOnce(u16) -> Result<H, Error>>(
        &mut self,
        id: u16,
        make: F,
    ) -> (res: Result<&H, Error>)
        requires
            call_requires(make, (id,)),
        ensures
            keys_unique(final(self)@),
            has_entry(old(self)@, id) ==> ({
                &&& final(self)@ == old(self)@
                &&& res == Ok::<&H, Error>(&old(self)@[place_of(old(self)@, id) as int].1)
            }),
            !has_entry(old(self)@, id) ==> (match res {
                Ok(handle) => {
                    &&& call_ensures(make, (id,), Ok::<H, Error>(*handle))
                    &&& final(self)@ == old(self)@.push((id, *handle))
                },
                Err(e) => {
                    &&& final(self)@ == old(self)@
                    &&& e == Error::OutOfMemory || call_ensures(make, (id,), Err::<H, Error>(e))
                },
            }),
    {
        proof {
            use_type_invariant(&*self);
        }
        let index = self.index_of(id);
        if index < self.entries.len() {
            return Ok(&self.entries[index].handle);
        }
        let handle = match make(id) {
            Ok(handle) => handle,
            Err(e) => {
                return Err(e);
            },
        };
        let reserved = self.reserve();
        self.insert(id, handle, reserved)
    }

    /// The place of the entry of `id`, or the number of entries where there is none.
    fn index_of(&self, id: u16) -> (index: usize)
        ensures
            index == place_of(self@, id),
            index <= self@.len(),
    {
        let mut index: usize = 0;
        assert(self@.skip(0) =~= self@);
        while index < self.entries.len()
            invariant
                index <= self@.len(),
                self@.len() == self.entries@.len(),
                forall|i: int| 0 <= i < self@.len() ==> self@[i].0 == self.entries@[i].id,
                place_of(self@, id) == index + place_of(self@.skip(index as int), id),
            decreases self@.len() - index,
        {
            assert(self@.skip(index as int).drop_first() =~= self@.skip(index + 1));
            if self.entries[index].id == id {
                return index;
            }
            index += 1;
        }
        index
    }
}

/// Most devices that can be registered at once.
pub const MAX_DEVICES: usize = 16;

/// Checks the number of devices that is asked for at start-up: more than `MAX_DEVICES`
/// is refused with `Overflow`.
pub fn check_device_count(devices: usize) -> (res: Result<(), Error>)
    ensures
        devices <= MAX_DEVICES ==> res == Ok::<(), Error>(()),
        devices > MAX_DEVICES ==> res == Err::<(), Error>(Error::Overflow),
{
    if MAX_DEVICES < devices {
        return Err(Error::Overflow);
    }
    Ok(())
}

/// The place of an identifier is that of its first entry: the entry there is for the
/// identifier, and no entry before it is.
pub proof fn lemma_place_of<H>(entries: Seq<(u16, H)>, id: u16)
    ensures
        place_of(entries, id) <= entries.len(),
        has_entry(entries, id) ==> entries[place_of(entries, id) as int].0 == id,
        forall|i: int| 0 <= i < place_of(entries, id) ==> (#[trigger] entries[i]).0 != id,
    decreases entries.len(),
{
    if entries.len() > 0 && entries[0].0 != id {
        let rest = entries.drop_first();
        lemma_place_of(rest, id);
        assert forall|i: int| 0 <= i < place_of(entries, id) implies (#[trigger] entries[i]).0
            != id by {
            if i > 0 {
                assert(entries[i] == rest[i - 1]);
            }
        }
    }
}

/// A new entry is found where it was put, and changes nothing for any other identifier:
/// after the entry for `id` is added to entries that have none for it, `id` has its entry
/// at the end, and every other identifier has the entry that it had, or still none.
pub proof fn lemma_entry_added<H>(entries: Seq<(u16, H)>, id: u16, handle: H, other: u16)
    requires
        !has_entry(entries, id),
    ensures
        has_entry(entries.push((id, handle)), id),
        place_of(entries.push((id, handle)), id) == entries.len(),
        keys_unique(entries) ==> keys_unique(entries.push((id, handle))),
        other != id ==> has_entry(entries.push((id, handle)), other) == has_entry(entries, other),
        other != id && has_entry(entries, other) ==> place_of(entries.push((id, handle)), other)
            == place_of(entries, other),
    decreases entries.len(),
{
    let longer = entries.push((id, handle));
    lemma_place_of(entries, id);
    if entries.len() > 0 {
        let rest = entries.drop_first();
        assert(longer.drop_first() =~= rest.push((id, handle)));
        lemma_place_of(rest, id);
        lemma_entry_added(rest, id, handle, other);
    }
}

} // verus!
