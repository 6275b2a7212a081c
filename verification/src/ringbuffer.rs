//! A fixed-capacity FIFO store over a contiguous array with two cursors and a count.

use crate::error::Error;
use vstd::prelude::*;

verus! {

/// One operation on a bounded FIFO store, as a mathematical value.
pub ghost enum Operation<T> {
    /// Append a value behind the newest.
    Push(T),
    /// Remove the oldest value.
    Pop,
}

/// The contents of a store of `capacity` slots after `op`: a push on a full store and a
/// pop on an empty one change nothing.
pub open spec fn apply<T>(contents: Seq<T>, capacity: nat, op: Operation<T>) -> Seq<T> {
    match op {
        Operation::Push(val) => if contents.len() < capacity {
            contents.push(val)
        } else {
            contents
        },
        Operation::Pop => if contents.len() > 0 {
            contents.drop_first()
        } else {
            contents
        },
    }
}

/// The contents of a store of `capacity` slots after the operations `ops`, in their order.
pub open spec fn apply_all<T>(contents: Seq<T>, capacity: nat, ops: Seq<Operation<T>>) -> Seq<T>
    decreases ops.len(),
{
    if ops.len() == 0 {
        contents
    } else {
        apply_all(apply(contents, capacity, ops[0]), capacity, ops.drop_first())
    }
}

/// Array backed ring buffer with FIFO semantics and room for `N` values.
///
/// Its view is the sequence of the stored values, oldest first.
pub struct Ringbuffer<T: Copy, const N: usize> {
    /// Storage; a slot holds `Some` from the first time it is written.
    buffer: [Option<T>; N],
    /// Slot of the oldest value.
    rpos: usize,
    /// Slot that the next value goes to.
    wpos: usize,
    /// Number of stored values.
    used: usize,
}

impl<T: Copy, const N: usize> View for Ringbuffer<T, N> {
    type V = Seq<T>;

    closed spec fn view(&self) -> Seq<T> {
        Seq::new(self.used as nat, |i: int| self.buffer@[Self::slot(self.rpos, i)].unwrap())
    }
}

impl<T: Copy, const N: usize> Ringbuffer<T, N> {
    /// Index into the array of the `i`-th value behind the read cursor `rpos`.
    spec fn slot(rpos: usize, i: int) -> int {
        if rpos + i < N {
            rpos + i
        } else {
            rpos + i - N
        }
    }

    #[verifier::type_invariant]
    spec fn inv(&self) -> bool {
        &&& self.used <= N
        &&& self.rpos < N || (N == 0 && self.rpos == 0)
        &&& self.wpos < N || (N == 0 && self.wpos == 0)
        &&& N > 0 ==> self.wpos == Self::slot(self.rpos, self.used as int)
        &&& forall|i: int|
            0 <= i < self.used ==> (#[trigger] self.buffer@[Self::slot(self.rpos, i)]) is Some
    }

    /// Creates an empty ring buffer.
    pub fn new() -> (rb: Self)
        ensures
            rb@ == Seq::<T>::empty(),
    {
        Self { buffer: [None; N], rpos: 0, wpos: 0, used: 0 }
    }

    /// Appends `val` behind the newest value; fails with `Full`, changing nothing, when
    /// all `N` slots are occupied.
    pub fn try_push(&mut self, val: T) -> (res: Result<(), Error>)
        ensures
            old(self)@.len() == N ==> res == Err::<(), Error>(Error::Full),
            old(self)@.len() < N ==> res == Ok::<(), Error>(()),
            final(self)@ == apply(old(self)@, N as nat, Operation::Push(val)),
            old(self)@.len() <= N,
            final(self)@.len() <= N,
    {
        proof {
            use_type_invariant(&*self);
        }
        if self.used >= N {
            return Err(Error::Full);
        }
        store(&mut self.buffer, &mut self.wpos, &mut self.used, val);
        Ok(())
    }

    /// Removes and returns the oldest value; fails with `Empty`, changing nothing, when
    /// no slot is occupied.
    pub fn try_pop(&mut self) -> (res: Result<T, Error>)
        ensures
            old(self)@.len() == 0 ==> res == Err::<T, Error>(Error::Empty),
            old(self)@.len() > 0 ==> res == Ok::<T, Error>(old(self)@[0]),
            final(self)@ == apply(old(self)@, N as nat, Operation::<T>::Pop),
            old(self)@.len() <= N,
            final(self)@.len() <= N,
    {
        proof {
            use_type_invariant(&*self);
        }
        if self.used == 0 {
            return Err(Error::Empty);
        }
        proof {
            let next: usize = if self.rpos + 1 < N {
                (self.rpos + 1) as usize
            } else {
                0
            };
            assert forall|i: int| 0 <= i < self.used - 1 implies (#[trigger] self.buffer@[Self::slot(
                next,
                i,
            )]) is Some by {
                assert(self.buffer@[Self::slot(self.rpos, i + 1)] is Some);
            }
        }
        let taken = fetch(&self.buffer, &mut self.rpos, &mut self.used);
        match taken {
            Some(val) => Ok(val),
            // Every slot within the count holds a value, so this arm is never taken.
            None => Err(Error::Empty),
        }
    }

    /// Number of stored values.
    pub fn len(&self) -> (n: usize)
        ensures
            n == self@.len(),
            n <= N,
    {
        proof {
            use_type_invariant(self);
        }
        self.used
    }

    /// Number of values that can still be stored before the buffer is full.
    pub fn free(&self) -> (n: usize)
        ensures
            n == N - self@.len(),
            self@.len() <= N,
    {
        proof {
            use_type_invariant(self);
        }
        self.size() - self.used
    }

    /// Total number of slots: the capacity `N`, fixed for the buffer's lifetime.
    pub fn size(&self) -> (n: usize)
        ensures
            n == N,
    {
        N
    }

    /// Whether nothing is stored.
    pub fn is_empty(&self) -> (b: bool)
        ensures
            b <==> self@.len() == 0,
            self@.len() <= N,
    {
        self.len() == 0
    }

    /// Whether all `N` slots are occupied.
    pub fn is_full(&self) -> (b: bool)
        ensures
            b <==> self@.len() == N,
            self@.len() <= N,
    {
        self.free() == 0
    }
}

/// Writes `val` at the write cursor and advances the cursor, wrapping at `N`, and the count.
fn store<T: Copy, const N: usize>(
    buffer: &mut [Option<T>; N],
    wpos: &mut usize,
    used: &mut usize,
    val: T,
)
    requires
        *old(wpos) < N,
        *old(used) < N,
    ensures
        final(buffer)@ == old(buffer)@.update(*old(wpos) as int, Some(val)),
        *final(used) == *old(used) + 1,
        *final(wpos) == (if *old(wpos) + 1 < N {
            *old(wpos) + 1
        } else {
            0
        }),
    no_unwind
{
    buffer[*wpos] = Some(val);
    *used += 1;
    *wpos += 1;
    if *wpos >= N {
        *wpos = 0;
    }
}

/// Reads the slot at the read cursor and advances the cursor, wrapping at `N`, while the
/// count goes down by one.
fn fetch<T: Copy, const N: usize>(
    buffer: &[Option<T>; N],
    rpos: &mut usize,
    used: &mut usize,
) -> (taken: Option<T>)
    requires
        *old(rpos) < N,
        0 < *old(used),
    ensures
        taken == buffer@[*old(rpos) as int],
        *final(used) == *old(used) - 1,
        *final(rpos) == (if *old(rpos) + 1 < N {
            *old(rpos) + 1
        } else {
            0
        }),
    no_unwind
{
    let taken = buffer[*rpos];
    *used -= 1;
    *rpos += 1;
    if *rpos >= N {
        *rpos = 0;
    }
    taken
}

/// Whatever is pushed and popped, and in whatever order, the number of occupied slots
/// stays between zero and the capacity.
pub proof fn lemma_occupancy_bounded<T>(contents: Seq<T>, capacity: nat, ops: Seq<Operation<T>>)
    requires
        contents.len() <= capacity,
    ensures
        0 <= apply_all(contents, capacity, ops).len() <= capacity,
    decreases ops.len(),
{
    if ops.len() > 0 {
        lemma_occupancy_bounded(apply(contents, capacity, ops[0]), capacity, ops.drop_first());
    }
}

/// Values leave in the order in which they came: after pushing `vals`, which the store
/// has room for, the store holds its old contents followed by `vals`, oldest first.
pub proof fn lemma_pushes_keep_order<T>(contents: Seq<T>, capacity: nat, vals: Seq<T>)
    requires
        contents.len() + vals.len() <= capacity,
    ensures
        apply_all(contents, capacity, Seq::new(vals.len(), |i: int| Operation::Push(vals[i])))
            == contents + vals,
    decreases vals.len(),
{
    let ops = Seq::new(vals.len(), |i: int| Operation::Push(vals[i]));
    if vals.len() > 0 {
        let rest = vals.drop_first();
        lemma_pushes_keep_order(contents.push(vals[0]), capacity, rest);
        assert(ops.drop_first() =~= Seq::new(rest.len(), |i: int| Operation::Push(rest[i])));
    }
}

} // verus!
