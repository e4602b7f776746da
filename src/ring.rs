//! The ring buffer itself: its slots, its two cursors, and the two operations.
use vstd::prelude::*;

use crate::cursor::{plan_read, plan_write, Errors};
use crate::model::{after_pull, after_push};

verus! {

/// The slot that holds the element at position `i` of the queue, the read
/// cursor standing at `read`.
pub open spec fn slot_of(read: int, i: int, slots: int) -> int {
    if read + 1 + i < slots {
        read + 1 + i
    } else {
        read + 1 + i - slots
    }
}

/// How many elements lie between the read cursor and the write cursor.
pub open spec fn live_count(read: int, write: int, slots: int) -> int {
    if write > read {
        write - read - 1
    } else {
        write + slots - read - 1
    }
}

/// A ring buffer of `T` values with a fixed logical capacity.
///
/// It owns `capacity + 2` slots. The elements stored lie in the slots strictly
/// after the read cursor and strictly before the write cursor, going round.
pub struct Anellus<T: Copy> {
    read: usize,
    write: usize,
    slots: usize,
    ring: Vec<Option<T>>,
    contents: Ghost<Seq<T>>,
}

impl<T: Copy> View for Anellus<T> {
    type V = Seq<T>;

    /// The stored elements, oldest first.
    closed spec fn view(&self) -> Seq<T> {
        self.contents@
    }
}

impl<T: Copy> Anellus<T> {
    /// The number of elements the buffer can hold at once.
    pub closed spec fn capacity(&self) -> nat {
        (self.slots - 2) as nat
    }

    /// The cursors stand on distinct slots, and each stored element is in the
    /// slot that its position gives.
    pub closed spec fn wf(&self) -> bool {
        &&& 2 <= self.slots
        &&& self.ring@.len() == self.slots
        &&& self.read < self.slots
        &&& self.write < self.slots
        &&& self.read != self.write
        &&& self.contents@.len() == live_count(
            self.read as int,
            self.write as int,
            self.slots as int,
        )
        &&& forall|i: int|
            0 <= i < self.contents@.len() ==> #[trigger] self.ring@[slot_of(
                self.read as int,
                i,
                self.slots as int,
            )] == Some(self.contents@[i])
    }

    /// An empty buffer that can hold `size` elements.
    pub fn new(size: usize) -> (r: Self)
        requires
            size <= usize::MAX - 2,
        ensures
            r.wf(),
            r@ == Seq::<T>::empty(),
            r.capacity() == size,
    {
        let slots: usize = size + 2;
        let mut ring: Vec<Option<T>> = Vec::new();
        let mut k: usize = 0;
        while k < slots
            invariant
                k <= slots,
                ring@.len() == k,
            decreases slots - k,
        {
            ring.push(None);
            k = k + 1;
        }
        Anellus { read: 0, write: 1, slots, ring, contents: Ghost(Seq::empty()) }
    }

    /// Takes out the oldest element, or returns `Empty` when nothing is stored.
    pub fn pull(&mut self) -> (r: Result<T, Errors>)
        requires
            old(self).wf(),
        ensures
            final(self).wf(),
            final(self).capacity() == old(self).capacity(),
            match after_pull(old(self)@) {
                Some((v, q)) => r == Ok::<T, Errors>(v) && final(self)@ == q,
                None => r == Err::<T, Errors>(Errors::Empty) && final(self)@ == old(self)@,
            },
    {
        match plan_read(self.read, self.write, self.slots) {
            Err(e) => Err(e),
            Ok(next) => {
                let ghost read = self.read as int;
                let ghost slots = self.slots as int;
                assert(self.ring@[slot_of(read, 0, slots)] == Some(self.contents@[0]));
                let cell = self.ring[next];
                match cell {
                    Some(v) => {
                        let ghost old_contents = self.contents@;
                        self.read = next;
                        self.contents = Ghost(old_contents.drop_first());
                        assert forall|i: int| 0 <= i < self.contents@.len() implies #[trigger] self.ring@[slot_of(
                            self.read as int,
                            i,
                            slots,
                        )] == Some(self.contents@[i]) by {
                            assert(slot_of(self.read as int, i, slots) == slot_of(read, i + 1, slots));
                            assert(self.ring@[slot_of(read, i + 1, slots)] == Some(old_contents[i + 1]));
                        }
                        Ok(v)
                    },
                    None => Err(Errors::Empty),
                }
            },
        }
    }

    /// Stores `value` after the newest element, or returns `Full` when the
    /// buffer already holds as many elements as its capacity.
    pub fn push(&mut self, value: T) -> (r: Result<(), Errors>)
        requires
            old(self).wf(),
        ensures
            final(self).wf(),
            final(self).capacity() == old(self).capacity(),
            match after_push(old(self)@, old(self).capacity(), value) {
                Some(q) => r == Ok::<(), Errors>(()) && final(self)@ == q,
                None => r == Err::<(), Errors>(Errors::Full) && final(self)@ == old(self)@,
            },
    {
        match plan_write(self.read, self.write, self.slots) {
            Err(e) => Err(e),
            Ok(next) => {
                let ghost read = self.read as int;
                let ghost slots = self.slots as int;
                let ghost old_ring = self.ring@;
                let ghost old_contents = self.contents@;
                let at = self.write;
                assert(slot_of(read, old_contents.len() as int, slots) == at as int);
                self.ring[at] = Some(value);
                self.write = next;
                self.contents = Ghost(old_contents.push(value));
                assert forall|i: int| 0 <= i < self.contents@.len() implies #[trigger] self.ring@[slot_of(
                    read,
                    i,
                    slots,
                )] == Some(self.contents@[i]) by {
                    if i < old_contents.len() {
                        assert(old_ring[slot_of(read, i, slots)] == Some(old_contents[i]));
                        assert(slot_of(read, i, slots) != at as int);
                    }
                }
                Ok(())
            },
        }
    }
}

} // verus!
