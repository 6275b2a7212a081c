//! The two ends of a transfer as plain values: a source that hands out the bytes of a
//! producer one at a time, and a sink of limited room that takes the bytes for a reader.

use crate::error::Error;
use vstd::prelude::*;

verus! {

/// The bytes that a producer supplies, read one at a time from the front.
///
/// Its view is the sequence of the bytes not read yet.
pub struct ByteSource {
    bytes: Vec<u8>,
    position: usize,
}

impl View for ByteSource {
    type V = Seq<u8>;

    closed spec fn view(&self) -> Seq<u8> {
        self.bytes@.skip(self.position as int)
    }
}

impl ByteSource {
    #[verifier::type_invariant]
    spec fn inv(&self) -> bool {
        self.position <= self.bytes@.len()
    }

    /// Number of bytes read so far.
    pub closed spec fn taken(&self) -> usize {
        self.position
    }

    /// Creates a source that hands out `bytes` from the first byte on.
    pub fn new(bytes: Vec<u8>) -> (source: Self)
        ensures
            source@ == bytes@,
            source.taken() == 0,
    {
        Self { bytes, position: 0 }
    }

    /// Number of bytes not read yet.
    pub fn len(&self) -> (n: usize)
        ensures
            n == self@.len(),
    {
        proof {
            use_type_invariant(self);
        }
        self.bytes.len() - self.position
    }

    /// Whether every byte has been read.
    pub fn is_empty(&self) -> (b: bool)
        ensures
            b <==> self@.len() == 0,
    {
        self.len() == 0
    }

    /// Number of bytes read so far. Together with the bytes not read yet it makes up the
    /// length of what the producer supplied.
    pub fn position(&self) -> (n: usize)
        ensures
            n == self.taken(),
            n + self@.len() <= usize::MAX,
    {
        proof {
            use_type_invariant(self);
        }
        let total = self.bytes.len();
        assert(self.position + self@.len() == total);
        self.position
    }

    /// Hands out the next byte; fails with `SourceExhausted`, changing nothing, when every
    /// byte has been read.
    pub fn read_one_byte(&mut self) -> (res: Result<u8, Error>)
        ensures
            old(self)@.len() == 0 ==> ({
                &&& res == Err::<u8, Error>(Error::SourceExhausted)
                &&& final(self)@ == old(self)@
                &&& final(self).taken() == old(self).taken()
            }),
            old(self)@.len() > 0 ==> ({
                &&& res == Ok::<u8, Error>(old(self)@[0])
                &&& final(self)@ == old(self)@.drop_first()
                &&& final(self).taken() == old(self).taken() + 1
            }),
    {
        proof {
            use_type_invariant(&*self);
        }
        if self.position >= self.bytes.len() {
            return Err(Error::SourceExhausted);
        }
        let byte = self.bytes[self.position];
        self.position += 1;
        Ok(byte)
    }
}

/// The place that a reader offers for bytes: it takes one byte at a time until its room
/// is used up.
///
/// Its view is the sequence of the bytes taken so far.
pub struct ByteSink {
    bytes: Vec<u8>,
    room: usize,
}

impl View for ByteSink {
    type V = Seq<u8>;

    closed spec fn view(&self) -> Seq<u8> {
        self.bytes@
    }
}

impl ByteSink {
    /// Number of bytes that the sink still takes.
    pub closed spec fn spec_room(&self) -> usize {
        self.room
    }

    /// Creates an empty sink with room for `limit` bytes.
    pub fn new(limit: usize) -> (sink: Self)
        ensures
            sink@ == Seq::<u8>::empty(),
            sink.spec_room() == limit,
    {
        Self { bytes: Vec::new(), room: limit }
    }

    /// Number of bytes that the sink still takes.
    #[verifier::when_used_as_spec(spec_room)]
    pub fn room(&self) -> (n: usize)
        ensures
            n == self.spec_room(),
    {
        self.room
    }

    /// Whether the room is used up.
    pub fn is_full(&self) -> (b: bool)
        ensures
            b <==> self.room() == 0,
    {
        self.room == 0
    }

    /// Number of bytes taken so far.
    pub fn len(&self) -> (n: usize)
        ensures
            n == self@.len(),
    {
        self.bytes.len()
    }

    /// Takes `byte` behind the bytes taken so far; fails with `Full`, changing nothing,
    /// when the room is used up.
    pub fn write_one_byte(&mut self, byte: u8) -> (res: Result<(), Error>)
        ensures
            old(self).room() == 0 ==> ({
                &&& res == Err::<(), Error>(Error::Full)
                &&& final(self)@ == old(self)@
                &&& final(self).room() == 0
            }),
            old(self).room() > 0 ==> ({
                &&& res == Ok::<(), Error>(())
                &&& final(self)@ == old(self)@.push(byte)
                &&& final(self).room() == old(self).room() - 1
            }),
    {
        if self.room == 0 {
            return Err(Error::Full);
        }
        self.bytes.push(byte);
        self.room -= 1;
        Ok(())
    }

    /// Ends the sink and hands over the bytes taken, in the order in which they came.
    pub fn into_bytes(self) -> (bytes: Vec<u8>)
        ensures
            bytes@ == self@,
    {
        self.bytes
    }
}

} // verus!
