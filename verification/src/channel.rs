//! A channel: the unit of transcoding state behind one device identifier.

use crate::access::{opened, released, AccessMode, AccessState};
use crate::error::Error;
use crate::morse::{lemma_symbol_bytes, symbol_bytes};
use crate::ringbuffer::Ringbuffer;
use crate::transfer::{
    lemma_transcode_outcome, read_step, read_step_spec, write_step, write_step_spec, ReadStep,
    Resume, WriteOutcome, WriteSession, WriteState, WriteStep,
};
use crate::transport::ByteSink;
use vstd::prelude::*;

verus! {

/// Number of bytes of Morse code that a channel buffers.
pub const BUFFER_SIZE: usize = 256;

/// The state of one channel: who holds it, and the Morse code that waits for a reader.
///
/// A channel does no locking. Whoever shares one among threads guards it with a lock and
/// calls its operations while holding that lock.
pub struct Channel {
    id: u16,
    access: AccessState,
    queue: Ringbuffer<u8, BUFFER_SIZE>,
}

/// What a channel stands for.
pub ghost struct ChannelView {
    /// The identifier, fixed for the channel's lifetime.
    pub id: u16,
    /// Which access domains are held.
    pub access: AccessState,
    /// The buffered bytes of Morse code, oldest first.
    pub queue: Seq<u8>,
}

impl View for Channel {
    type V = ChannelView;

    closed spec fn view(&self) -> ChannelView {
        ChannelView { id: self.id, access: self.access, queue: self.queue@ }
    }
}

impl Channel {
    /// Creates the channel with identifier `id`: nobody holds it and its buffer is empty.
    pub fn new(id: u16) -> (channel: Channel)
        ensures
            channel@ == (ChannelView {
                id,
                access: AccessState::unheld(),
                queue: Seq::<u8>::empty(),
            }),
    {
        Channel { id, access: AccessState::new(), queue: Ringbuffer::new() }
    }

    /// The identifier of the channel.
    pub fn id(&self) -> (id: u16)
        ensures
            id == self@.id,
    {
        self.id
    }

    /// Which access domains are held.
    pub fn access(&self) -> (access: AccessState)
        ensures
            access == self@.access,
    {
        self.access
    }

    /// Number of buffered bytes; never more than `BUFFER_SIZE`.
    pub fn len(&self) -> (n: usize)
        ensures
            n == self@.queue.len(),
            n <= BUFFER_SIZE,
    {
        self.queue.len()
    }

    /// Opens the channel with the access mode that `flags` name.
    ///
    /// The request is denied, and nothing changes, where a domain that the mode asks for
    /// is held already and where the flags name no mode.
    pub fn open(&mut self, flags: u32) -> (res: Result<(), Error>)
        ensures
            (match opened(old(self)@.access, flags) {
                Ok(access) => res == Ok::<(), Error>(()) && final(self)@ == (ChannelView {
                    access,
                    ..old(self)@
                }),
                Err(e) => res == Err::<(), Error>(e) && final(self)@ == old(self)@,
            }),
    {
        match AccessMode::from_flags(flags) {
            Some(mode) => self.access.acquire(mode),
            None => Err(Error::AccessDenied),
        }
    }

    /// Gives back the access that was taken at open time with the same `flags`.
    ///
    /// The buffer is left alone, and flags that name no mode change nothing.
    pub fn release(&mut self, flags: u32)
        ensures
            final(self)@ == (ChannelView {
                access: released(old(self)@.access, flags),
                ..old(self)@
            }),
    {
        match AccessMode::from_flags(flags) {
            Some(mode) => self.access.release(mode),
            None => {},
        }
    }

    /// Runs one step of a write call: text from the session goes into the buffer as Morse
    /// code.
    pub fn write(&mut self, session: WriteSession, resume: Resume) -> (step: WriteStep)
        ensures
            (final(self)@.queue, step@) == write_step_spec(
                old(self)@.queue,
                BUFFER_SIZE as nat,
                session@,
                resume,
            ),
            final(self)@.id == old(self)@.id,
            final(self)@.access == old(self)@.access,
            step matches WriteStep::Blocked(next) ==> next@.well_formed(),
    {
        write_step(&mut self.queue, session, resume)
    }

    /// Runs one step of a read call: Morse code from the buffer goes to the sink.
    pub fn read(&mut self, sink: &mut ByteSink, resume: Resume) -> (step: ReadStep)
        ensures
            (final(self)@.queue, final(sink)@, step) == read_step_spec(
                old(self)@.queue,
                old(sink)@,
                old(sink).room() as nat,
                resume,
            ),
            final(sink).room() == old(sink).room() - (final(sink)@.len() - old(sink)@.len()),
            final(self)@.id == old(self)@.id,
            final(self)@.access == old(self)@.access,
    {
        read_step(&mut self.queue, sink, resume)
    }
}

/// No write call waits forever on a channel that is read: once the buffer is drained, the
/// codepoint that waited goes in, since every symbol is shorter than the buffer, and the
/// call does not fail.
pub proof fn lemma_drained_channel_unblocks(state: WriteState)
    requires
        state.well_formed(),
        state.pending is Some,
    ensures
        symbol_bytes(state.pending->0.codepoint).is_prefix_of(
            write_step_spec(Seq::empty(), BUFFER_SIZE as nat, state, Resume::Ready).0,
        ),
        write_step_spec(Seq::empty(), BUFFER_SIZE as nat, state, Resume::Ready).1
            != WriteOutcome::Blocked(state),
        !(write_step_spec(
            Seq::empty(),
            BUFFER_SIZE as nat,
            state,
            Resume::Ready,
        ).1 matches WriteOutcome::Finished { result: Err(_), .. }),
{
    let symbol = symbol_bytes(state.pending->0.codepoint);
    lemma_symbol_bytes(state.pending->0.codepoint);
    assert(Seq::<u8>::empty() + symbol =~= symbol);
    lemma_transcode_outcome(
        symbol,
        BUFFER_SIZE as nat,
        state.remaining,
        state.consumed + state.pending->0.width,
    );
}

} // verus!
