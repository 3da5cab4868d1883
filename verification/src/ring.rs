//! Fixed-capacity ring buffer.
//!
//! The kernel never allocates after boot, so every queue in it is a ring of
//! capacity fixed at construction time. Enqueueing into a full ring fails
//! and leaves the stored elements untouched; it never grows the buffer and
//! never overwrites a queued element.

use vstd::prelude::*;

verus! {

/// Physical slot index of the `i`-th queued element when the oldest element
/// sits at `head` in a buffer of `cap` slots.
pub open spec fn ring_index(head: int, i: int, cap: int) -> int {
    if head + i < cap {
        head + i
    } else {
        head + i - cap
    }
}

/// A bounded FIFO queue over a buffer whose size never changes.
pub struct RingBuffer<T> {
    slots: Vec<T>,
    head: usize,
    len: usize,
}

impl<T: Copy> RingBuffer<T> {
    /// Number of slots; fixed for the life of the ring.
    pub closed spec fn spec_capacity(self) -> int {
        self.slots@.len() as int
    }

    pub closed spec fn wf(self) -> bool {
        &&& self.slots@.len() >= 1
        &&& (self.head as int) < self.slots@.len()
        &&& self.len <= self.slots@.len()
    }

    /// The queued elements, oldest first.
    pub closed spec fn view(self) -> Seq<T> {
        Seq::new(
            self.len as nat,
            |i: int| self.slots@[ring_index(self.head as int, i, self.spec_capacity())],
        )
    }

    /// A ring of `cap` slots, each initially holding `fill`; the queue
    /// starts empty.
    pub fn new(cap: usize, fill: T) -> (r: RingBuffer<T>)
        requires
            cap >= 1,
        ensures
            r.wf(),
            r.spec_capacity() == cap,
            r.view() == Seq::<T>::empty(),
    {
        let mut slots: Vec<T> = Vec::new();
        let mut i: usize = 0;
        while i < cap
            invariant
                i <= cap,
                slots@.len() == i,
            decreases cap - i,
        {
            slots.push(fill);
            i = i + 1;
        }
        let r = RingBuffer { slots, head: 0, len: 0 };
        proof {
            assert(r.view() =~= Seq::<T>::empty());
        }
        r
    }

    pub fn len(&self) -> (r: usize)
        ensures
            r == self.view().len(),
    {
        self.len
    }

    pub fn is_empty(&self) -> (r: bool)
        ensures
            r == (self.view().len() == 0),
    {
        self.len == 0
    }

    pub fn is_full(&self) -> (r: bool)
        requires
            self.wf(),
        ensures
            r == (self.view().len() == self.spec_capacity()),
    {
        self.len == self.slots.len()
    }

    /// Appends `value` behind the newest element. Returns `true` when the
    /// element was stored; a full ring refuses the element and keeps its
    /// contents exactly as they were.
    pub fn enqueue(&mut self, value: T) -> (r: bool)
        requires
            old(self).wf(),
        ensures
            final(self).wf(),
            final(self).spec_capacity() == old(self).spec_capacity(),
            r == (old(self).view().len() < old(self).spec_capacity()),
            r ==> final(self).view() == old(self).view().push(value),
            !r ==> *final(self) == *old(self),
    {
        if self.len == self.slots.len() {
            proof {
                assert(final(self).view() =~= old(self).view());
            }
            false
        } else {
            let cap = self.slots.len();
            let pos = if self.head < cap - self.len {
                self.head + self.len
            } else {
                self.head - (cap - self.len)
            };
            self.slots[pos] = value;
            self.len = self.len + 1;
            proof {
                assert(final(self).view() =~= old(self).view().push(value));
            }
            true
        }
    }

    /// Removes and returns the oldest element, or `None` when the queue is
    /// empty.
    pub fn dequeue(&mut self) -> (r: Option<T>)
        requires
            old(self).wf(),
        ensures
            final(self).wf(),
            final(self).spec_capacity() == old(self).spec_capacity(),
            old(self).view().len() == 0 ==> r is None && *final(self) == *old(self),
            old(self).view().len() > 0 ==> r == Some(old(self).view()[0])
                && final(self).view() == old(self).view().skip(1),
    {
        if self.len == 0 {
            proof {
                assert(final(self).view() =~= old(self).view());
            }
            None
        } else {
            let value = self.slots[self.head];
            self.head = if self.head < self.slots.len() - 1 {
                self.head + 1
            } else {
                0
            };
            self.len = self.len - 1;
            proof {
                assert(final(self).view() =~= old(self).view().skip(1));
            }
            Some(value)
        }
    }

    /// The queue bound: a well-formed ring never holds more elements than
    /// its fixed capacity, so filling it can never reach adjacent memory.
    pub proof fn lemma_len_bounded(self)
        requires
            self.wf(),
        ensures
            self.view().len() <= self.spec_capacity(),
    {
    }

    /// Discards every queued element; the buffer itself is kept.
    pub fn clear(&mut self)
        requires
            old(self).wf(),
        ensures
            final(self).wf(),
            final(self).spec_capacity() == old(self).spec_capacity(),
            final(self).view() == Seq::<T>::empty(),
    {
        self.len = 0;
        proof {
            assert(final(self).view() =~= Seq::<T>::empty());
        }
    }
}

} // verus!
