//! Exclusive access to a channel: at most one reader and at most one writer at a time.
//!
//! Reading and writing are two independent domains. A holder takes one of them or both,
//! and a request is denied when any domain that it asks for is already held.

use crate::error::Error;
use vstd::prelude::*;

verus! {

/// Mask that selects the access mode among the flags given at open time.
pub const O_ACCMODE: u32 = 3;

/// Access mode bits of a request to read only.
pub const O_RDONLY: u32 = 0;

/// Access mode bits of a request to write only.
pub const O_WRONLY: u32 = 1;

/// Access mode bits of a request to read and write.
pub const O_RDWR: u32 = 2;

/// The access that a holder asks for.
#[derive(Clone, Copy, Debug, PartialEq, Eq, Structural)]
pub enum AccessMode {
    /// The read domain alone.
    ReadOnly,
    /// The write domain alone.
    WriteOnly,
    /// Both domains.
    ReadWrite,
}

impl AccessMode {
    /// Whether the mode asks for the read domain.
    pub open spec fn reads(self) -> bool {
        self != AccessMode::WriteOnly
    }

    /// Whether the mode asks for the write domain.
    pub open spec fn writes(self) -> bool {
        self != AccessMode::ReadOnly
    }

    /// The mode that the open flags `flags` name, if they name one.
    pub open spec fn of_flags(flags: u32) -> Option<AccessMode> {
        let bits = flags & O_ACCMODE;
        if bits == O_RDONLY {
            Some(AccessMode::ReadOnly)
        } else if bits == O_WRONLY {
            Some(AccessMode::WriteOnly)
        } else if bits == O_RDWR {
            Some(AccessMode::ReadWrite)
        } else {
            None
        }
    }

    /// Reads the access mode out of the flags given at open time; every other flag is
    /// ignored.
    pub fn from_flags(flags: u32) -> (mode: Option<AccessMode>)
        ensures
            mode == Self::of_flags(flags),
    {
        let bits = flags & O_ACCMODE;
        if bits == O_RDONLY {
            Some(AccessMode::ReadOnly)
        } else if bits == O_WRONLY {
            Some(AccessMode::WriteOnly)
        } else if bits == O_RDWR {
            Some(AccessMode::ReadWrite)
        } else {
            None
        }
    }
}

/// Which of the two domains of a channel are held.
#[derive(Clone, Copy, Debug, PartialEq, Eq, Structural)]
pub struct AccessState {
    /// Whether the read domain is held.
    pub has_reader: bool,
    /// Whether the write domain is held.
    pub has_writer: bool,
}

impl AccessState {
    /// Whether every domain that `mode` asks for is free.
    pub open spec fn grants(self, mode: AccessMode) -> bool {
        &&& mode.reads() ==> !self.has_reader
        &&& mode.writes() ==> !self.has_writer
    }

    /// The state once the domains of `mode` are taken.
    pub open spec fn with(self, mode: AccessMode) -> AccessState {
        AccessState {
            has_reader: self.has_reader || mode.reads(),
            has_writer: self.has_writer || mode.writes(),
        }
    }

    /// The state once the domains of `mode` are given back.
    pub open spec fn without(self, mode: AccessMode) -> AccessState {
        AccessState {
            has_reader: self.has_reader && !mode.reads(),
            has_writer: self.has_writer && !mode.writes(),
        }
    }

    /// The state of a channel that nobody holds.
    pub open spec fn unheld() -> AccessState {
        AccessState { has_reader: false, has_writer: false }
    }

    /// Creates the state of a channel that nobody holds.
    pub fn new() -> (state: AccessState)
        ensures
            state == Self::unheld(),
    {
        AccessState { has_reader: false, has_writer: false }
    }

    /// Takes the domains of `mode` if all of them are free, and otherwise denies the
    /// request and changes nothing.
    pub fn acquire(&mut self, mode: AccessMode) -> (res: Result<(), Error>)
        ensures
            old(self).grants(mode) ==> ({
                &&& res == Ok::<(), Error>(())
                &&& *final(self) == old(self).with(mode)
            }),
            !old(self).grants(mode) ==> ({
                &&& res == Err::<(), Error>(Error::AccessDenied)
                &&& *final(self) == *old(self)
            }),
    {
        match mode {
            AccessMode::ReadOnly => {
                if self.has_reader {
                    return Err(Error::AccessDenied);
                }
                self.has_reader = true;
            },
            AccessMode::WriteOnly => {
                if self.has_writer {
                    return Err(Error::AccessDenied);
                }
                self.has_writer = true;
            },
            AccessMode::ReadWrite => {
                if self.has_reader || self.has_writer {
                    return Err(Error::AccessDenied);
                }
                self.has_reader = true;
                self.has_writer = true;
            },
        }
        Ok(())
    }

    /// Gives the domains of `mode` back, whether or not they were held.
    pub fn release(&mut self, mode: AccessMode)
        ensures
            *final(self) == old(self).without(mode),
    {
        match mode {
            AccessMode::ReadOnly => {
                self.has_reader = false;
            },
            AccessMode::WriteOnly => {
                self.has_writer = false;
            },
            AccessMode::ReadWrite => {
                self.has_reader = false;
                self.has_writer = false;
            },
        }
    }
}

/// What a request to open with `flags` does to `access`: the state with the domains of
/// the mode taken, or `AccessDenied` where a domain is held already or the flags name no
/// mode.
pub open spec fn opened(access: AccessState, flags: u32) -> Result<AccessState, Error> {
    match AccessMode::of_flags(flags) {
        Some(mode) => if access.grants(mode) {
            Ok(access.with(mode))
        } else {
            Err(Error::AccessDenied)
        },
        None => Err(Error::AccessDenied),
    }
}

/// What a release with `flags` does to `access`: the domains of the mode are given back,
/// and nothing changes where the flags name no mode.
pub open spec fn released(access: AccessState, flags: u32) -> AccessState {
    match AccessMode::of_flags(flags) {
        Some(mode) => access.without(mode),
        None => access,
    }
}

/// The flags name a mode exactly when their two lowest bits are not both set, and then
/// the mode depends on those two bits alone.
pub proof fn lemma_flags_name_a_mode(flags: u32)
    ensures
        AccessMode::of_flags(flags) is None <==> flags % 4 == 3,
        flags % 4 == 0 ==> AccessMode::of_flags(flags) == Some(AccessMode::ReadOnly),
        flags % 4 == 1 ==> AccessMode::of_flags(flags) == Some(AccessMode::WriteOnly),
        flags % 4 == 2 ==> AccessMode::of_flags(flags) == Some(AccessMode::ReadWrite),
{
    assert(flags & 3 == flags % 4) by (bit_vector);
}

/// Exclusivity: while a holder has a domain, every request that asks for that domain is
/// denied.
pub proof fn lemma_held_domain_is_denied(state: AccessState, held: AccessMode, asked: AccessMode)
    requires
        state.grants(held),
        (held.reads() && asked.reads()) || (held.writes() && asked.writes()),
    ensures
        !state.with(held).grants(asked),
{
}

/// Exclusivity at open time: once a request was granted, the same request is denied until
/// the holder releases, and is granted again after that.
pub proof fn lemma_second_open_is_denied(access: AccessState, flags: u32)
    requires
        opened(access, flags) is Ok,
    ensures
        opened(opened(access, flags)->Ok_0, flags) == Err::<AccessState, Error>(
            Error::AccessDenied,
        ),
        released(opened(access, flags)->Ok_0, flags) == access,
        opened(released(opened(access, flags)->Ok_0, flags), flags) is Ok,
{
}

/// Independence: one reader and one writer may hold a channel at once.
pub proof fn lemma_reader_and_writer_coexist(state: AccessState)
    requires
        state.grants(AccessMode::ReadOnly),
        state.grants(AccessMode::WriteOnly),
    ensures
        state.with(AccessMode::ReadOnly).grants(AccessMode::WriteOnly),
        state.with(AccessMode::WriteOnly).grants(AccessMode::ReadOnly),
        state.with(AccessMode::ReadOnly).with(AccessMode::WriteOnly) == state.with(
            AccessMode::ReadWrite,
        ),
{
}

/// A release undoes the acquisition that it mirrors: what was granted before is granted
/// again.
pub proof fn lemma_release_undoes_acquire(state: AccessState, mode: AccessMode)
    requires
        state.grants(mode),
    ensures
        state.with(mode).without(mode) == state,
        state.with(mode).without(mode).grants(mode),
{
}

/// Releasing twice is the same as releasing once.
pub proof fn lemma_release_is_idempotent(state: AccessState, mode: AccessMode)
    ensures
        state.without(mode).without(mode) == state.without(mode),
{
}

} // verus!
