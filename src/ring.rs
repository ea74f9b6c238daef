//! A ring of slots with a read and a write index, held by one owner.
//!
//! This is the buffer's slot discipline with both indices in one place: the
//! same masking of wrapping indices, the same fullness and emptiness tests,
//! and a slot holds a value exactly while its index lies between the read and
//! the write index.
use vstd::prelude::*;
use crate::index::{
    advance, capacity_ok, distance, lemma_add_distance, lemma_advance_distance, lemma_distance_zero,
    lemma_offset_after_advance, lemma_shift, lemma_slot_from_offset, lemma_slot_in_range,
    lemma_slot_offset, mask_of, mask_ok, wadd, wsub,
};
use crate::queue::{after_pull, after_push, front, push_result};

verus! {

/// A fixed-capacity first-in first-out ring buffer owned by a single holder.
pub struct Ring<T> {
    slots: Vec<Option<T>>,
    mask: u64,
    read: u64,
    write: u64,
}

impl<T> Ring<T> {
    /// Number of slots.
    pub closed spec fn cap(&self) -> nat {
        self.slots@.len()
    }

    /// Number of values held.
    pub closed spec fn len(&self) -> nat {
        wsub(self.write, self.read) as nat
    }

    /// Offset of slot `p` from the slot of the read index.
    closed spec fn offset(&self, p: int) -> u64 {
        wsub(p as u64, self.read) & self.mask
    }

    /// Slot of the value `j` places after the oldest one.
    closed spec fn slot(&self, j: int) -> int {
        (wadd(self.read, j as u64) & self.mask) as int
    }

    /// The slots hold exactly the values between the two indices.
    pub closed spec fn wf(&self) -> bool {
        &&& self.slots@.len() == self.mask + 1
        &&& self.slots@.len() <= usize::MAX
        &&& mask_ok(self.mask)
        &&& self.len() <= self.cap()
        &&& forall|p: int|
            0 <= p < self.slots@.len() ==> (#[trigger] self.slots@[p] is Some <==> self.offset(p)
                < self.len())
    }
}

impl<T> View for Ring<T> {
    type V = Seq<T>;

    /// The values held, oldest first.
    closed spec fn view(&self) -> Seq<T> {
        Seq::new(self.len(), |j: int| self.slots@[self.slot(j)]->Some_0)
    }
}

impl<T> Ring<T> {
    /// Each held value sits in its slot.
    proof fn lemma_held(&self, j: int)
        requires
            self.wf(),
            0 <= j < self.len(),
        ensures
            0 <= self.slot(j) < self.cap(),
            self.slots@[self.slot(j)] is Some,
            self.offset(self.slot(j)) == j,
    {
        lemma_slot_in_range(wadd(self.read, j as u64), self.mask);
        lemma_slot_offset(self.read, j as u64, self.mask);
    }

    /// Creates an empty ring of `capacity` slots.
    pub fn new(capacity: usize) -> (r: Self)
        requires
            capacity_ok(capacity),
        ensures
            r.wf(),
            r.cap() == capacity,
            r@ == Seq::<T>::empty(),
    {
        let mask = mask_of(capacity);
        let mut slots: Vec<Option<T>> = Vec::with_capacity(capacity);
        let mut i: usize = 0;
        while i < capacity
            invariant
                i <= capacity,
                slots@.len() == i,
                forall|p: int| 0 <= p < i ==> #[trigger] slots@[p] is None,
            decreases capacity - i,
        {
            slots.push(None);
            i = i + 1;
        }
        let r = Ring { slots, mask, read: 0, write: 0 };
        assert(r@ =~= Seq::<T>::empty());
        r
    }

    /// Number of slots.
    pub fn capacity(&self) -> (c: usize)
        requires
            self.wf(),
        ensures
            c == self.cap(),
    {
        self.slots.len()
    }

    /// Tells whether the ring holds as many values as it has slots.
    pub fn is_full(&self) -> (b: bool)
        requires
            self.wf(),
        ensures
            b == (self@.len() == self.cap()),
    {
        distance(self.write, self.read) == self.slots.len() as u64
    }

    /// Tells whether the ring holds no value.
    pub fn is_empty(&self) -> (b: bool)
        requires
            self.wf(),
        ensures
            b == (self@.len() == 0),
    {
        proof {
            lemma_distance_zero(self.write, self.read);
        }
        self.read == self.write
    }

    /// Offers `v`: when the ring is full it is handed back and nothing
    /// changes; otherwise it becomes the newest value.
    pub fn push(&mut self, v: T) -> (r: Option<T>)
        requires
            old(self).wf(),
        ensures
            final(self).wf(),
            final(self).cap() == old(self).cap(),
            final(self)@ == after_push(old(self)@, old(self).cap(), v),
            r == push_result(old(self)@, old(self).cap(), v),
            old(self)@.len() == old(self).cap() ==> *final(self) == *old(self),
    {
        if self.is_full() {
            return Some(v);
        }
        let ghost old_ring = *self;
        let ghost len = self.len();
        proof {
            lemma_add_distance(self.read, self.write);
            lemma_slot_in_range(self.write, self.mask);
            lemma_slot_offset(self.read, len as u64, self.mask);
        }
        let p = (self.write & self.mask) as usize;
        self.slots.set(p, Some(v));
        self.write = advance(self.write);
        proof {
            lemma_advance_distance(old_ring.write, old_ring.read);
            assert(self.len() == len + 1);
            assert forall|q: int| 0 <= q < self.slots@.len() implies (#[trigger] self.slots@[q] is Some
                <==> self.offset(q) < self.len()) by {
                if q != p {
                    lemma_slot_from_offset(self.read, q as u64, self.mask);
                    assert(old_ring.slots@[q] == self.slots@[q]);
                }
            }
            assert forall|j: int| 0 <= j < len implies self.slot(j) != p by {
                old_ring.lemma_held(j);
            }
            assert forall|j: int| 0 <= j < len + 1 implies self@[j] == old_ring@.push(v)[j] by {
                if j < len {
                    old_ring.lemma_held(j);
                    assert(self.slot(j) == old_ring.slot(j));
                } else {
                    assert(wadd(self.read, len as u64) == old_ring.write);
                    assert(self.slot(j) == p);
                }
            }
            assert(self@ =~= old_ring@.push(v));
        }
        None
    }

    /// Takes the oldest value, or gives nothing when the ring is empty.
    pub fn pull(&mut self) -> (r: Option<T>)
        requires
            old(self).wf(),
        ensures
            final(self).wf(),
            final(self).cap() == old(self).cap(),
            final(self)@ == after_pull(old(self)@),
            r == front(old(self)@),
            old(self)@.len() == 0 ==> *final(self) == *old(self),
    {
        if self.is_empty() {
            return None;
        }
        let ghost old_ring = *self;
        let ghost len = self.len();
        proof {
            old_ring.lemma_held(0);
            assert(wadd(self.read, 0) == self.read);
        }
        let p = (self.read & self.mask) as usize;
        let mut taken: Option<T> = None;
        self.slots.set_and_swap(p, &mut taken);
        self.read = advance(self.read);
        proof {
            lemma_advance_distance(old_ring.write, old_ring.read);
            assert(self.len() == len - 1);
            assert forall|q: int| 0 <= q < self.slots@.len() implies (#[trigger] self.slots@[q] is Some
                <==> self.offset(q) < self.len()) by {
                lemma_offset_after_advance(old_ring.read, q as u64, self.mask);
                if q != p {
                    assert(old_ring.slots@[q] == self.slots@[q]);
                    if old_ring.offset(q) == 0 {
                        lemma_slot_from_offset(old_ring.read, q as u64, self.mask);
                    }
                }
            }
            assert forall|j: int| 0 <= j < self.len() implies self.slot(j) == old_ring.slot(j + 1)
                && self.slot(j) != p by {
                lemma_shift(old_ring.read, j as u64);
                old_ring.lemma_held(j + 1);
            }
            assert forall|j: int| 0 <= j < self.len() implies self@[j] == old_ring@.drop_first()[j] by {
                lemma_shift(old_ring.read, j as u64);
                old_ring.lemma_held(j + 1);
                assert(self.slots@[self.slot(j)] == old_ring.slots@[old_ring.slot(j + 1)]);
            }
            assert(self@ =~= old_ring@.drop_first());
        }
        taken
    }

    /// The oldest value, left in place.
    pub fn peek(&self) -> (r: Option<&T>)
        requires
            self.wf(),
        ensures
            r is Some <==> self@.len() > 0,
            r is Some ==> *r->Some_0 == self@[0],
    {
        if self.is_empty() {
            return None;
        }
        proof {
            self.lemma_held(0);
            assert(wadd(self.read, 0) == self.read);
        }
        let p = (self.read & self.mask) as usize;
        self.slots[p].as_ref()
    }

    /// The oldest value, left in place, to be changed through the reference.
    pub fn peek_mut(&mut self) -> (r: Option<&mut T>)
        requires
            old(self).wf(),
        ensures
            r is Some <==> old(self)@.len() > 0,
            r is None ==> *final(self) == *old(self),
            r is Some ==> *r->Some_0 == old(self)@[0],
            r is Some ==> final(self).wf() && final(self).cap() == old(self).cap()
                && final(self)@ == old(self)@.update(0, *final(r->Some_0)),
    {
        if self.is_empty() {
            return None;
        }
        proof {
            self.lemma_held(0);
            assert(wadd(self.read, 0) == self.read);
        }
        let p = (self.read & self.mask) as usize;
        let ghost old_ring = *self;
        let r = self.slots[p].as_mut();
        proof {
            old_ring.lemma_front_replaced(after_borrow(*self), *final(r->Some_0));
        }
        r
    }

    proof fn lemma_front_replaced(&self, o: Self, x: T)
        requires
            self.wf(),
            self.len() > 0,
            o.mask == self.mask,
            o.read == self.read,
            o.write == self.write,
            o.slots@ == self.slots@.update(self.slot(0), Some(x)),
        ensures
            o.wf(),
            o.cap() == self.cap(),
            o@ == self@.update(0, x),
    {
        self.lemma_held(0);
        assert forall|j: int| 0 <= j < self.len() implies o@[j] == self@.update(0, x)[j] by {
            self.lemma_held(j);
        }
        assert(o@ =~= self@.update(0, x));
    }

    /// Empties the ring, handing out every value it held, oldest first.
    pub fn drain(&mut self) -> (out: Vec<T>)
        requires
            old(self).wf(),
        ensures
            final(self).wf(),
            final(self).cap() == old(self).cap(),
            final(self)@ == Seq::<T>::empty(),
            out@ == old(self)@,
    {
        let mut out: Vec<T> = Vec::new();
        let ghost all = self@;
        while !self.is_empty()
            invariant
                self.wf(),
                self.cap() == old(self).cap(),
                all == out@ + self@,
            decreases self@.len(),
        {
            let v = self.pull();
            match v {
                Some(x) => {
                    out.push(x);
                },
                None => {},
            }
            assert(all =~= out@ + self@);
        }
        assert(self@ =~= Seq::<T>::empty());
        out
    }
}

} // verus!
