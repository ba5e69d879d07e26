use vstd::prelude::*;
use crate::model::{after_insert, after_remove, evicted, front};

verus! {

/// Index of the slot that holds the `k`-th oldest item of a ring of `size` slots whose oldest
/// item sits at `head` (for `0 <= head, k < size`).
pub open spec fn slot_of(head: int, k: int, size: int) -> int {
    if head + k < size {
        head + k
    } else {
        head + k - size
    }
}

/// A FIFO ring buffer of `SIZE` slots that, once full, evicts its oldest item to make room
/// for a new one.
pub struct RingBuffer<T, const SIZE: usize> {
    slots: Vec<Option<T>>,
    head: usize,
    usage: usize,
}

impl<T, const SIZE: usize> View for RingBuffer<T, SIZE> {
    type V = Seq<T>;

    /// The stored items, oldest first.
    closed spec fn view(&self) -> Seq<T> {
        Seq::new(
            self.usage as nat,
            |k: int| self.slots@[slot_of(self.head as int, k, SIZE as int)]->Some_0,
        )
    }
}

impl<T, const SIZE: usize> RingBuffer<T, SIZE> {
    /// The occupied slots form one run of `usage` slots that starts at `head` and wraps
    /// around; every other slot is empty.
    pub closed spec fn wf(&self) -> bool {
        &&& 0 < SIZE
        &&& self.slots@.len() == SIZE
        &&& self.head < SIZE
        &&& self.usage <= SIZE
        &&& forall|k: int|
            0 <= k < SIZE ==> (self.slots@[#[trigger] slot_of(self.head as int, k, SIZE as int)] is Some
                <==> k < self.usage)
    }

    /// Index of the slot that follows `i` around the ring.
    fn next_slot(i: usize) -> (r: usize)
        requires
            i < SIZE,
        ensures
            r == slot_of(i as int, 1, SIZE as int),
    {
        if i + 1 < SIZE {
            i + 1
        } else {
            0
        }
    }

    /// An empty buffer of `SIZE` slots.
    pub fn new() -> (r: Self)
        requires
            SIZE > 0,
        ensures
            r.wf(),
            r@ == Seq::<T>::empty(),
    {
        let mut slots: Vec<Option<T>> = Vec::new();
        let mut n: usize = 0;
        while n < SIZE
            invariant
                n <= SIZE,
                slots@.len() == n,
                forall|j: int| 0 <= j < n ==> slots@[j] is None,
            decreases SIZE - n,
        {
            slots.push(None);
            n = n + 1;
        }
        let r = RingBuffer { slots, head: 0, usage: 0 };
        assert(r@ =~= Seq::<T>::empty());
        r
    }

    /// The number of stored items.
    pub fn len(&self) -> (r: usize)
        requires
            self.wf(),
        ensures
            r == self@.len(),
    {
        self.usage
    }

    /// Inserts `value` as the newest item. When the buffer is full, the oldest item leaves
    /// to make room and is returned; otherwise nothing is returned.
    pub fn push(&mut self, value: T) -> (r: Option<T>)
        requires
            old(self).wf(),
        ensures
            final(self).wf(),
            r == evicted(old(self)@, SIZE as nat),
            final(self)@ == after_insert(old(self)@, value, SIZE as nat),
    {
        if self.usage < SIZE {
            let ghost before = self@;
            let ghost pre = *self;
            let index = if self.usage < SIZE - self.head {
                self.head + self.usage
            } else {
                self.usage - (SIZE - self.head)
            };
            self.slots.set(index, Some(value));
            self.usage = self.usage + 1;
            assert forall|k: int| 0 <= k < SIZE implies (self.slots@[#[trigger] slot_of(
                self.head as int,
                k,
                SIZE as int,
            )] is Some <==> k < self.usage) by {
                if k != pre.usage {
                    assert(pre.slots@[slot_of(pre.head as int, k, SIZE as int)] is Some <==> k
                        < pre.usage);
                }
            }
            assert(self@ =~= before.push(value));
            None
        } else {
            let ghost before = self@;
            let ghost pre = *self;
            let index = self.head;
            self.slots.push(Some(value));
            let prev = self.slots.swap_remove(index);
            self.head = Self::next_slot(self.head);
            assert forall|k: int| 0 <= k < SIZE implies (self.slots@[#[trigger] slot_of(
                self.head as int,
                k,
                SIZE as int,
            )] is Some <==> k < self.usage) by {
                if k + 1 < SIZE {
                    assert(pre.slots@[slot_of(pre.head as int, k + 1, SIZE as int)] is Some);
                }
            }
            assert(pre.slots@[slot_of(pre.head as int, 0, SIZE as int)] is Some);
            assert(self@ =~= before.drop_first().push(value));
            prev
        }
    }

    /// Removes and returns the oldest item, or returns nothing, leaving the buffer as it
    /// was, when it is empty.
    pub fn pop(&mut self) -> (r: Option<T>)
        requires
            old(self).wf(),
        ensures
            final(self).wf(),
            r == front(old(self)@),
            final(self)@ == after_remove(old(self)@),
            old(self)@.len() == 0 ==> *final(self) == *old(self),
    {
        if self.usage == 0 {
            return None;
        }
        let ghost before = self@;
        let ghost pre = *self;
        let index = self.head;
        self.slots.push(None);
        let prev = self.slots.swap_remove(index);
        self.head = Self::next_slot(self.head);
        self.usage = self.usage - 1;
        assert forall|k: int| 0 <= k < SIZE implies (self.slots@[#[trigger] slot_of(
            self.head as int,
            k,
            SIZE as int,
        )] is Some <==> k < self.usage) by {
            if k + 1 < SIZE {
                assert(pre.slots@[slot_of(pre.head as int, k + 1, SIZE as int)] is Some <==> k + 1
                    < pre.usage);
            }
        }
        assert(pre.slots@[slot_of(pre.head as int, 0, SIZE as int)] is Some);
        assert(self@ =~= before.drop_first());
        prev
    }
}

/// In every state the buffer can reach, it holds between zero and `SIZE` items.
pub proof fn lemma_occupancy_bounded<T, const SIZE: usize>(rb: &RingBuffer<T, SIZE>)
    requires
        rb.wf(),
    ensures
        0 <= rb@.len() <= SIZE,
{
}

} // verus!
