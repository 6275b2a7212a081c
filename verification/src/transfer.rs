//! Moving text into a channel's buffer as Morse symbols, and symbols out of it.
//!
//! A transfer never waits by itself. It runs as far as the buffer allows and then says
//! what its caller has to do: wait for the other side and step again, or end the call
//! with a result. The caller says in turn how its wait ended.

use crate::decoder::{decode, lemma_decode_text, try_read_char};
use crate::error::Error;
use crate::morse::{lemma_symbol_bytes, morse_code_from, morse_text, symbol_bytes};
use crate::ringbuffer::Ringbuffer;
use crate::transport::{ByteSink, ByteSource};
use vstd::prelude::*;
use vstd::string::StringSliceAdditionalSpecFns;
use vstd::utf8::encode_utf8;

verus! {

/// How the wait before a step ended.
#[derive(Clone, Copy, Debug, PartialEq, Eq, Structural)]
pub enum Resume {
    /// There was no wait, or the other side gave notice.
    Ready,
    /// The wait was cancelled from outside.
    Interrupted,
}

/// One write call in progress: the bytes of the producer, the number of them that have
/// been transcoded, and the codepoint that waits for room, if one does.
pub struct WriteSession {
    source: ByteSource,
    consumed: usize,
    pending: Option<(char, usize)>,
}

/// A codepoint that was read from the source and waits for room in the buffer.
pub ghost struct Pending {
    /// The codepoint.
    pub codepoint: char,
    /// Number of source bytes that it was read from.
    pub width: nat,
}

/// What a write call in progress stands for.
pub ghost struct WriteState {
    /// The bytes of the producer that have not been read.
    pub remaining: Seq<u8>,
    /// Number of source bytes whose symbols are in the buffer.
    pub consumed: nat,
    /// The codepoint that waits for room, if one does.
    pub pending: Option<Pending>,
}

impl WriteState {
    /// Whether the state is one that a write call can be in: a codepoint that waits was
    /// read from at least one byte, and the source bytes can be counted in a `usize`.
    pub open spec fn well_formed(self) -> bool {
        match self.pending {
            Some(pending) => 0 < pending.width && self.consumed + pending.width
                + self.remaining.len() <= usize::MAX,
            None => self.consumed + self.remaining.len() <= usize::MAX,
        }
    }
}

impl View for WriteSession {
    type V = WriteState;

    closed spec fn view(&self) -> WriteState {
        WriteState {
            remaining: self.source@,
            consumed: self.consumed as nat,
            pending: match self.pending {
                Some((codepoint, width)) => Some(Pending { codepoint, width: width as nat }),
                None => None,
            },
        }
    }
}

/// What a write step asks of its caller.
pub enum WriteStep {
    /// Wait for space in the buffer, then step again with this session.
    Blocked(WriteSession),
    /// End the call with `result`, after waking the readers if `notify_readers` is set.
    Finished { result: Result<usize, Error>, notify_readers: bool },
}

/// What a write step asks of its caller, over the view of the session.
pub ghost enum WriteOutcome {
    Blocked(WriteState),
    Finished { result: Result<usize, Error>, notify_readers: bool },
}

impl View for WriteStep {
    type V = WriteOutcome;

    open spec fn view(&self) -> WriteOutcome {
        match *self {
            WriteStep::Blocked(session) => WriteOutcome::Blocked(session@),
            WriteStep::Finished { result, notify_readers } => WriteOutcome::Finished {
                result,
                notify_readers,
            },
        }
    }
}

/// What a read step asks of its caller.
#[derive(Clone, Copy, Debug, PartialEq, Eq, Structural)]
pub enum ReadStep {
    /// Wait for data in the buffer, then step again.
    Blocked,
    /// End the call with `count` bytes transferred, after waking the writers if
    /// `notify_writers` is set.
    Finished { count: usize, notify_writers: bool },
}

/// The end of a write call after `consumed` source bytes: a short count is a success, and
/// `failure` comes out only where nothing was transcoded. Readers are woken exactly when
/// something was transcoded.
pub open spec fn write_end(consumed: nat, failure: Option<Error>) -> WriteOutcome {
    WriteOutcome::Finished {
        result: if consumed == 0 && failure is Some {
            Err(failure->0)
        } else {
            Ok(consumed as usize)
        },
        notify_readers: consumed > 0,
    }
}

/// Transcoding for as long as the buffer allows: the new contents of the buffer and the
/// outcome, for a buffer that holds `queue` out of `capacity` bytes, a source that still
/// holds `remaining`, and `consumed` source bytes transcoded before.
///
/// The call ends when the buffer is full or when no further codepoint can be decoded. It
/// blocks, with the codepoint kept, when the next symbol needs more room than is left.
pub open spec fn transcode(queue: Seq<u8>, capacity: nat, remaining: Seq<u8>, consumed: nat) -> (
    Seq<u8>,
    WriteOutcome,
)
    decreases remaining.len(),
{
    let step = decode(remaining);
    if queue.len() >= capacity {
        (queue, write_end(consumed, None))
    } else if step.result is Err {
        (queue, write_end(consumed, Some(step.result->Err_0)))
    } else {
        let c = step.result->Ok_0;
        let rest = remaining.skip(step.read as int);
        if queue.len() + symbol_bytes(c).len() > capacity {
            (
                queue,
                WriteOutcome::Blocked(
                    WriteState {
                        remaining: rest,
                        consumed,
                        pending: Some(Pending { codepoint: c, width: step.read }),
                    },
                ),
            )
        } else {
            transcode(queue + symbol_bytes(c), capacity, rest, consumed + step.read)
        }
    }
}

/// One step of a write call: the new contents of the buffer and the outcome.
///
/// An interrupted wait ends the call with what was transcoded so far. A call that has
/// not started yet blocks while the buffer is full. A codepoint that waits for room
/// blocks until its whole symbol fits. From there on the step transcodes.
pub open spec fn write_step_spec(
    queue: Seq<u8>,
    capacity: nat,
    state: WriteState,
    resume: Resume,
) -> (Seq<u8>, WriteOutcome) {
    if resume is Interrupted {
        (queue, write_end(state.consumed, None))
    } else {
        match state.pending {
            None => if queue.len() >= capacity {
                (queue, WriteOutcome::Blocked(state))
            } else {
                transcode(queue, capacity, state.remaining, state.consumed)
            },
            Some(pending) => if queue.len() + symbol_bytes(pending.codepoint).len() > capacity {
                (queue, WriteOutcome::Blocked(state))
            } else {
                transcode(
                    queue + symbol_bytes(pending.codepoint),
                    capacity,
                    state.remaining,
                    state.consumed + pending.width,
                )
            },
        }
    }
}

/// One step of a read call: the new contents of the buffer and of the sink, and what the
/// caller has to do, for a sink that still takes `room` bytes.
///
/// An interrupted wait ends the call with nothing transferred. The call blocks while the
/// buffer is empty. Otherwise the oldest bytes go to the sink, as many as the buffer
/// holds and the sink takes.
pub open spec fn read_step_spec(queue: Seq<u8>, sink: Seq<u8>, room: nat, resume: Resume) -> (
    Seq<u8>,
    Seq<u8>,
    ReadStep,
) {
    let count = if queue.len() <= room {
        queue.len()
    } else {
        room
    };
    if resume is Interrupted {
        (queue, sink, ReadStep::Finished { count: 0, notify_writers: false })
    } else if queue.len() == 0 {
        (queue, sink, ReadStep::Blocked)
    } else {
        (
            queue.skip(count as int),
            sink + queue.take(count as int),
            ReadStep::Finished { count: count as usize, notify_writers: true },
        )
    }
}

impl WriteSession {
    #[verifier::type_invariant]
    spec fn inv(&self) -> bool {
        &&& self.source.taken() + self.source@.len() <= usize::MAX
        &&& match self.pending {
            Some((_, width)) => 0 < width && self.consumed + width <= self.source.taken(),
            None => self.consumed <= self.source.taken(),
        }
    }

    /// Starts a write call on the bytes that `source` has not handed out yet.
    pub fn new(source: ByteSource) -> (session: WriteSession)
        ensures
            session@ == (WriteState { remaining: source@, consumed: 0, pending: None }),
            session@.well_formed(),
    {
        let _ = source.position();
        WriteSession { source, consumed: 0, pending: None }
    }
}

/// Appends the bytes of `symbol` to the buffer, which has room for all of them.
fn push_symbol<const N: usize>(queue: &mut Ringbuffer<u8, N>, symbol: &str)
    requires
        old(queue)@.len() + symbol.spec_bytes().len() <= N,
    ensures
        final(queue)@ == old(queue)@ + symbol.spec_bytes(),
{
    let bytes = symbol.as_bytes();
    let mut index: usize = 0;
    while index < bytes.len()
        invariant
            index <= bytes@.len(),
            bytes@ == symbol.spec_bytes(),
            old(queue)@.len() + bytes@.len() <= N,
            queue@ == old(queue)@ + bytes@.take(index as int),
        decreases bytes@.len() - index,
    {
        let pushed = queue.try_push(bytes[index]);
        assert(pushed is Ok);
        index += 1;
    }
}

/// Runs one step of a write call on the buffer `queue`.
///
/// `session` is the call in progress and `resume` says how the wait before this step
/// ended (`Ready` for the first step). The step pushes whole symbols only, and counts the
/// source bytes of a codepoint once its symbol is in the buffer.
pub fn write_step<const N: usize>(
    queue: &mut Ringbuffer<u8, N>,
    session: WriteSession,
    resume: Resume,
) -> (step: WriteStep)
    ensures
        (final(queue)@, step@) == write_step_spec(old(queue)@, N as nat, session@, resume),
        session@.well_formed(),
        step matches WriteStep::Blocked(next) ==> next@.well_formed(),
{
    proof {
        use_type_invariant(&session);
    }
    let ghost goal = write_step_spec(queue@, N as nat, session@, resume);
    let WriteSession { mut source, mut consumed, pending } = session;
    if let Resume::Interrupted = resume {
        return WriteStep::Finished { result: Ok(consumed), notify_readers: consumed > 0 };
    }
    match pending {
        None => {
            if queue.is_full() {
                return WriteStep::Blocked(WriteSession { source, consumed, pending });
            }
        },
        Some((c, width)) => {
            let symbol = morse_code_from(c);
            proof {
                lemma_symbol_bytes(c);
            }
            if queue.free() < symbol.len() {
                return WriteStep::Blocked(WriteSession { source, consumed, pending });
            }
            push_symbol(queue, symbol);
            consumed += width;
        },
    }
    while !queue.is_full()
        invariant
            consumed <= source.taken(),
            source.taken() + source@.len() <= usize::MAX,
            session@.well_formed(),
            goal == write_step_spec(old(queue)@, N as nat, session@, resume),
            goal == transcode(queue@, N as nat, source@, consumed as nat),
        decreases source@.len(),
    {
        let before = source.position();
        match try_read_char(&mut source) {
            Err(e) => {
                return WriteStep::Finished {
                    result: if consumed > 0 {
                        Ok(consumed)
                    } else {
                        Err(e)
                    },
                    notify_readers: consumed > 0,
                };
            },
            Ok(c) => {
                let width = source.position() - before;
                let symbol = morse_code_from(c);
                proof {
                    lemma_symbol_bytes(c);
                }
                if queue.free() < symbol.len() {
                    return WriteStep::Blocked(
                        WriteSession { source, consumed, pending: Some((c, width)) },
                    );
                }
                push_symbol(queue, symbol);
                consumed += width;
            },
        }
    }
    WriteStep::Finished { result: Ok(consumed), notify_readers: consumed > 0 }
}

/// Runs one step of a read call on the buffer `queue`, with `sink` as the reader's end.
///
/// `resume` says how the wait before this step ended (`Ready` for the first step).
pub fn read_step<const N: usize>(
    queue: &mut Ringbuffer<u8, N>,
    sink: &mut ByteSink,
    resume: Resume,
) -> (step: ReadStep)
    ensures
        (final(queue)@, final(sink)@, step) == read_step_spec(
            old(queue)@,
            old(sink)@,
            old(sink).room() as nat,
            resume,
        ),
        final(sink).room() == old(sink).room() - (final(sink)@.len() - old(sink)@.len()),
{
    if let Resume::Interrupted = resume {
        return ReadStep::Finished { count: 0, notify_writers: false };
    }
    if queue.is_empty() {
        return ReadStep::Blocked;
    }
    let mut count: usize = 0;
    while !sink.is_full()
        invariant
            count <= old(queue)@.len() <= N,
            count <= old(sink).room(),
            sink.room() == old(sink).room() - count,
            queue@ == old(queue)@.skip(count as int),
            sink@ == old(sink)@ + old(queue)@.take(count as int),
        ensures
            count == (if old(queue)@.len() <= old(sink).room() {
                old(queue)@.len()
            } else {
                old(sink).room() as nat
            }),
            sink.room() == old(sink).room() - count,
            queue@ == old(queue)@.skip(count as int),
            sink@ == old(sink)@ + old(queue)@.take(count as int),
        decreases sink.room(),
    {
        match queue.try_pop() {
            Ok(byte) => {
                let written = sink.write_one_byte(byte);
                assert(written is Ok);
                assert(old(queue)@.skip(count as int).drop_first() =~= old(queue)@.skip(
                    count + 1,
                ));
                assert(old(queue)@.take(count + 1) =~= old(queue)@.take(count as int).push(
                    old(queue)@[count as int],
                ));
                count += 1;
            },
            Err(_) => {
                break ;
            },
        }
    }
    ReadStep::Finished { count, notify_writers: true }
}

/// A prefix of a prefix is a prefix.
proof fn lemma_prefix_of_longer(first: Seq<u8>, second: Seq<u8>, third: Seq<u8>)
    requires
        first.is_prefix_of(second),
        second.is_prefix_of(third),
    ensures
        first.is_prefix_of(third),
{
    assert forall|i: int| 0 <= i < first.len() implies first[i] == third[i] by {
        assert(first[i] == second.subrange(0, first.len() as int)[i]);
        assert(second[i] == third.subrange(0, second.len() as int)[i]);
    }
}

/// What every run of the transcoder keeps to, whatever the source holds.
///
/// The buffer only grows, at its end, and never beyond its capacity. A failure comes out
/// only where nothing was transcoded; it is one of the decoder's two and leaves
/// the buffer as it was. A count that comes out covers what was counted before and no
/// more than the source held. A blocked run keeps the codepoint whose symbol lacks room,
/// and accounts for every source byte: counted, kept with the codepoint, or unread.
pub proof fn lemma_transcode_outcome(
    queue: Seq<u8>,
    capacity: nat,
    remaining: Seq<u8>,
    consumed: nat,
)
    requires
        queue.len() <= capacity,
        consumed + remaining.len() <= usize::MAX,
    ensures
        queue.is_prefix_of(transcode(queue, capacity, remaining, consumed).0),
        transcode(queue, capacity, remaining, consumed).0.len() <= capacity,
        (match transcode(queue, capacity, remaining, consumed).1 {
            WriteOutcome::Finished { result: Err(e), notify_readers } => {
                &&& consumed == 0
                &&& !notify_readers
                &&& e == Error::InvalidEncoding || e == Error::SourceExhausted
                &&& transcode(queue, capacity, remaining, consumed).0 == queue
            },
            WriteOutcome::Finished { result: Ok(count), notify_readers } => {
                &&& consumed <= count <= consumed + remaining.len()
                &&& notify_readers == (count > 0)
            },
            WriteOutcome::Blocked(state) => {
                &&& state.pending is Some
                &&& state.pending->0.width > 0
                &&& consumed <= state.consumed
                &&& state.consumed + state.pending->0.width + state.remaining.len() == consumed
                    + remaining.len()
                &&& transcode(queue, capacity, remaining, consumed).0.len() + symbol_bytes(
                    state.pending->0.codepoint,
                ).len() > capacity
            },
        }),
    decreases remaining.len(),
{
    let step = decode(remaining);
    if queue.len() < capacity && step.result is Ok {
        let c = step.result->Ok_0;
        let rest = remaining.skip(step.read as int);
        if queue.len() + symbol_bytes(c).len() <= capacity {
            let longer = queue + symbol_bytes(c);
            lemma_transcode_outcome(longer, capacity, rest, consumed + step.read);
            lemma_prefix_of_longer(
                queue,
                longer,
                transcode(longer, capacity, rest, consumed + step.read).0,
            );
        }
    }
}

/// What every write step keeps to, whatever the state of the call.
///
/// The buffer only grows, at its end, and never beyond its capacity. A failure comes out
/// only where the call has transcoded nothing and holds no codepoint back; it is one of
/// the decoder's two (`Full` and `Empty` never leave a transfer) and leaves the buffer as
/// it was. A count that comes out is no less than what was counted before, and readers
/// are woken exactly when it is above zero.
pub proof fn lemma_write_step_outcome(
    queue: Seq<u8>,
    capacity: nat,
    state: WriteState,
    resume: Resume,
)
    requires
        queue.len() <= capacity,
        state.well_formed(),
    ensures
        queue.is_prefix_of(write_step_spec(queue, capacity, state, resume).0),
        write_step_spec(queue, capacity, state, resume).0.len() <= capacity,
        (match write_step_spec(queue, capacity, state, resume).1 {
            WriteOutcome::Finished { result: Err(e), notify_readers } => {
                &&& state.consumed == 0
                &&& state.pending is None
                &&& resume is Ready
                &&& !notify_readers
                &&& e == Error::InvalidEncoding || e == Error::SourceExhausted
                &&& write_step_spec(queue, capacity, state, resume).0 == queue
            },
            WriteOutcome::Finished { result: Ok(count), notify_readers } => {
                &&& state.consumed <= count
                &&& notify_readers == (count > 0)
            },
            WriteOutcome::Blocked(next) => {
                &&& resume is Ready
                &&& state.consumed <= next.consumed
                &&& next.pending is None ==> next == state && queue.len() == capacity
            },
        }),
{
    if resume is Ready {
        match state.pending {
            None => {
                if queue.len() < capacity {
                    lemma_transcode_outcome(queue, capacity, state.remaining, state.consumed);
                }
            },
            Some(pending) => {
                let symbol = symbol_bytes(pending.codepoint);
                if queue.len() + symbol.len() <= capacity {
                    let longer = queue + symbol;
                    lemma_transcode_outcome(
                        longer,
                        capacity,
                        state.remaining,
                        state.consumed + pending.width,
                    );
                    lemma_prefix_of_longer(
                        queue,
                        longer,
                        transcode(
                            longer,
                            capacity,
                            state.remaining,
                            state.consumed + pending.width,
                        ).0,
                    );
                    lemma_symbol_bytes(pending.codepoint);
                }
            },
        }
    }
}

/// Text that fits goes through whole: where the buffer has room for the Morse code of
/// all of `text`, transcoding the UTF-8 encoding of `text` appends exactly that Morse
/// code, and the call ends with all source bytes counted.
pub proof fn lemma_transcode_text(queue: Seq<u8>, capacity: nat, text: Seq<char>, consumed: nat)
    requires
        queue.len() + morse_text(text).len() <= capacity,
        text.len() > 0 || consumed > 0,
    ensures
        transcode(queue, capacity, encode_utf8(text), consumed) == (
            queue + morse_text(text),
            write_end(consumed + encode_utf8(text).len(), None),
        ),
    decreases text.len(),
{
    if text.len() > 0 {
        let c = text[0];
        let rest = text.drop_first();
        lemma_decode_text(text);
        lemma_symbol_bytes(c);
        lemma_transcode_text(
            queue + symbol_bytes(c),
            capacity,
            rest,
            consumed + decode(encode_utf8(text)).read,
        );
    }
}

/// Writing and reading back: on an empty buffer that has room for the Morse code of
/// `text`, one write step takes the whole UTF-8 encoding of `text`, and one read step
/// into a sink with enough room then yields the Morse code of `text`, byte for byte, and
/// leaves the buffer empty.
pub proof fn lemma_write_then_read(capacity: nat, text: Seq<char>, sink: Seq<u8>, room: nat)
    requires
        text.len() > 0,
        morse_text(text).len() <= capacity,
        morse_text(text).len() <= room,
    ensures
        write_step_spec(
            Seq::empty(),
            capacity,
            WriteState { remaining: encode_utf8(text), consumed: 0, pending: None },
            Resume::Ready,
        ) == (morse_text(text), write_end(encode_utf8(text).len(), None)),
        encode_utf8(text).len() > 0,
        read_step_spec(morse_text(text), sink, room, Resume::Ready) == (
            Seq::<u8>::empty(),
            sink + morse_text(text),
            ReadStep::Finished { count: morse_text(text).len() as usize, notify_writers: true },
        ),
{
    lemma_transcode_text(Seq::empty(), capacity, text, 0);
    lemma_decode_text(text);
    lemma_symbol_bytes(text[0]);
}

/// Backpressure: a codepoint whose symbol lacks room blocks the write call and changes
/// nothing. Once a read step has drained enough of the buffer, the next write step puts
/// the whole symbol behind what is left, and does not fail.
pub proof fn lemma_backpressure(
    queue: Seq<u8>,
    capacity: nat,
    state: WriteState,
    sink: Seq<u8>,
    room: nat,
)
    requires
        queue.len() <= capacity,
        state.well_formed(),
        state.pending is Some,
        queue.len() + symbol_bytes(state.pending->0.codepoint).len() > capacity,
        read_step_spec(queue, sink, room, Resume::Ready).0.len() + symbol_bytes(
            state.pending->0.codepoint,
        ).len() <= capacity,
    ensures
        write_step_spec(queue, capacity, state, Resume::Ready) == (
            queue,
            WriteOutcome::Blocked(state),
        ),
        ({
            let drained = read_step_spec(queue, sink, room, Resume::Ready).0;
            let after = write_step_spec(drained, capacity, state, Resume::Ready);
            &&& (drained + symbol_bytes(state.pending->0.codepoint)).is_prefix_of(after.0)
            &&& !(after.1 matches WriteOutcome::Finished { result: Err(_), .. })
        }),
{
    let drained = read_step_spec(queue, sink, room, Resume::Ready).0;
    let c = state.pending->0.codepoint;
    lemma_transcode_outcome(
        drained + symbol_bytes(c),
        capacity,
        state.remaining,
        state.consumed + state.pending->0.width,
    );
}

} // verus!
