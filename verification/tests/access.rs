use text_to_morse::access::{AccessMode, AccessState, O_ACCMODE, O_RDONLY, O_RDWR, O_WRONLY};
use text_to_morse::channel::Channel;
use text_to_morse::error::Error;

const MODES: [AccessMode; 3] = [AccessMode::ReadOnly, AccessMode::WriteOnly, AccessMode::ReadWrite];

fn reads(mode: AccessMode) -> bool {
    mode != AccessMode::WriteOnly
}

fn writes(mode: AccessMode) -> bool {
    mode != AccessMode::ReadOnly
}

#[test]
fn flags_name_the_three_modes() {
    assert_eq!(AccessMode::from_flags(O_RDONLY), Some(AccessMode::ReadOnly));
    assert_eq!(AccessMode::from_flags(O_WRONLY), Some(AccessMode::WriteOnly));
    assert_eq!(AccessMode::from_flags(O_RDWR), Some(AccessMode::ReadWrite));
    assert_eq!(AccessMode::from_flags(O_ACCMODE), None);
}

#[test]
fn flags_outside_the_mask_are_ignored() {
    assert_eq!(AccessMode::from_flags(0o100 | O_WRONLY), Some(AccessMode::WriteOnly));
    assert_eq!(AccessMode::from_flags(0o4000 | O_RDWR), Some(AccessMode::ReadWrite));
    assert_eq!(AccessMode::from_flags(0xffff_fffc), Some(AccessMode::ReadOnly));
    assert_eq!(AccessMode::from_flags(0xffff_ffff), None);
}

#[test]
fn second_writer_is_denied_until_the_first_releases() {
    let mut channel = Channel::new(1);
    assert_eq!(channel.open(O_WRONLY), Ok(()));
    assert_eq!(channel.open(O_WRONLY), Err(Error::AccessDenied));
    assert_eq!(channel.open(O_WRONLY), Err(Error::AccessDenied));
    channel.release(O_WRONLY);
    assert_eq!(channel.open(O_WRONLY), Ok(()));
}

#[test]
fn second_reader_is_denied_until_the_first_releases() {
    let mut channel = Channel::new(1);
    assert_eq!(channel.open(O_RDONLY), Ok(()));
    assert_eq!(channel.open(O_RDONLY), Err(Error::AccessDenied));
    channel.release(O_RDONLY);
    assert_eq!(channel.open(O_RDONLY), Ok(()));
}

#[test]
fn one_reader_and_one_writer_at_once() {
    let mut channel = Channel::new(7);
    assert_eq!(channel.open(O_RDONLY), Ok(()));
    assert_eq!(channel.open(O_WRONLY), Ok(()));
    assert_eq!(channel.access(), AccessState { has_reader: true, has_writer: true });
    assert_eq!(channel.open(O_RDWR), Err(Error::AccessDenied));
    channel.release(O_RDONLY);
    assert_eq!(channel.access(), AccessState { has_reader: false, has_writer: true });
    assert_eq!(channel.open(O_RDWR), Err(Error::AccessDenied));
    channel.release(O_WRONLY);
    assert_eq!(channel.access(), AccessState { has_reader: false, has_writer: false });
    assert_eq!(channel.open(O_RDWR), Ok(()));
}

#[test]
fn combined_holder_excludes_everyone() {
    let mut channel = Channel::new(7);
    assert_eq!(channel.open(O_RDWR), Ok(()));
    assert_eq!(channel.open(O_RDONLY), Err(Error::AccessDenied));
    assert_eq!(channel.open(O_WRONLY), Err(Error::AccessDenied));
    assert_eq!(channel.open(O_RDWR), Err(Error::AccessDenied));
    assert_eq!(channel.access(), AccessState { has_reader: true, has_writer: true });
}

#[test]
fn release_of_both_domains_clears_both_flags() {
    let mut channel = Channel::new(7);
    assert_eq!(channel.open(O_RDWR), Ok(()));
    channel.release(O_RDWR);
    assert_eq!(channel.access(), AccessState { has_reader: false, has_writer: false });
    assert_eq!(channel.open(O_RDONLY), Ok(()));
    assert_eq!(channel.open(O_WRONLY), Ok(()));
}

#[test]
fn unknown_mode_is_denied_and_changes_nothing() {
    let mut channel = Channel::new(2);
    assert_eq!(channel.open(O_ACCMODE), Err(Error::AccessDenied));
    assert_eq!(channel.access(), AccessState { has_reader: false, has_writer: false });
    assert_eq!(channel.open(O_RDWR), Ok(()));
    channel.release(O_ACCMODE);
    assert_eq!(channel.access(), AccessState { has_reader: true, has_writer: true });
}

#[test]
fn denied_request_changes_nothing() {
    let mut channel = Channel::new(2);
    assert_eq!(channel.open(O_RDONLY), Ok(()));
    assert_eq!(channel.open(O_RDWR), Err(Error::AccessDenied));
    assert_eq!(channel.access(), AccessState { has_reader: true, has_writer: false });
}

#[test]
fn acquire_follows_the_table_of_all_states_and_modes() {
    for has_reader in [false, true] {
        for has_writer in [false, true] {
            for mode in MODES {
                let before = AccessState { has_reader, has_writer };
                let mut state = before;
                let granted = !(reads(mode) && has_reader) && !(writes(mode) && has_writer);
                if granted {
                    assert_eq!(state.acquire(mode), Ok(()));
                    assert_eq!(
                        state,
                        AccessState {
                            has_reader: has_reader || reads(mode),
                            has_writer: has_writer || writes(mode),
                        }
                    );
                } else {
                    assert_eq!(state.acquire(mode), Err(Error::AccessDenied));
                    assert_eq!(state, before);
                }
            }
        }
    }
}

#[test]
fn release_follows_the_table_of_all_states_and_modes() {
    for has_reader in [false, true] {
        for has_writer in [false, true] {
            for mode in MODES {
                let mut state = AccessState { has_reader, has_writer };
                state.release(mode);
                let expected = AccessState {
                    has_reader: has_reader && !reads(mode),
                    has_writer: has_writer && !writes(mode),
                };
                assert_eq!(state, expected);
                state.release(mode);
                assert_eq!(state, expected);
            }
        }
    }
}

#[test]
fn new_state_is_unheld() {
    assert_eq!(AccessState::new(), AccessState { has_reader: false, has_writer: false });
}

#[test]
fn new_channel_is_unheld_and_empty() {
    let channel = Channel::new(42);
    assert_eq!(channel.id(), 42);
    assert_eq!(channel.len(), 0);
    assert_eq!(channel.access(), AccessState { has_reader: false, has_writer: false });
}
