//! The buffer shared by one producer thread and one consumer thread.
//!
//! Each side keeps its own index privately and publishes it through an atomic
//! counter with a release store; it reads the other side's counter with an
//! acquire load, and only when its cached copy says the buffer is full (for
//! the writer) or empty (for the reader). A slot is written only by the
//! writer while it lies outside the reader's window, and emptied only by the
//! reader while it lies inside it.
//!
//! What the other side does cannot be seen from one side, so the contracts
//! here speak of each handle's own counters and of the value it last observed
//! of the other's. The first-in first-out behaviour of this slot discipline is
//! stated and proved for [`crate::ring::Ring`], which keeps both indices in
//! one place.
use vstd::prelude::*;
use std::sync::Arc;
use std::sync::atomic::{AtomicU64, Ordering};
use crossbeam_utils::atomic::AtomicCell;
use crossbeam_utils::CachePadded;
use crate::index::{advance, capacity_ok, distance, lemma_slot_in_range, mask_of, mask_ok, wadd, wsub};

verus! {

/// Storage shared by the two handles. Under the index protocol a slot holds a
/// value exactly while its index lies between the published read and write
/// indices; each value still held when the last handle goes is dropped with
/// its slot.
#[verifier::reject_recursive_types(T)]
struct Shared<T> {
    slots: Vec<AtomicCell<Option<T>>>,
    mask: u64,
    idx_r: CachePadded<AtomicU64>,
    idx_w: CachePadded<AtomicU64>,
}

impl<T> Shared<T> {
    spec fn wf(&self) -> bool {
        &&& self.slots@.len() == self.mask + 1
        &&& self.slots@.len() <= usize::MAX
        &&& mask_ok(self.mask)
    }

    /// The slot of index `i`.
    fn slot(&self, i: u64) -> (c: &AtomicCell<Option<T>>)
        requires
            self.wf(),
        ensures
            *c == self.slots@[(i & self.mask) as int],
    {
        proof {
            lemma_slot_in_range(i, self.mask);
        }
        &self.slots[(i & self.mask) as usize]
    }
}

/// Creates a buffer of `capacity` slots and returns its two handles: the
/// writer for the single producer, the reader for the single consumer.
pub fn ringbuffer<T>(capacity: usize) -> (r: (RingBufferWriter<T>, RingBufferReader<T>))
    requires
        capacity_ok(capacity),
    ensures
        r.0.wf(),
        r.1.wf(),
        r.0.cap() == capacity,
        r.1.cap() == capacity,
        r.0.written() == 0,
        r.0.seen_read() == 0,
        r.1.taken() == 0,
        r.1.seen_written() == 0,
        r.1.held() is None,
{
    let mask = mask_of(capacity);
    let mut slots: Vec<AtomicCell<Option<T>>> = Vec::with_capacity(capacity);
    let mut i: usize = 0;
    while i < capacity
        invariant
            i <= capacity,
            slots@.len() == i,
        decreases capacity - i,
    {
        slots.push(AtomicCell::new(None));
        i = i + 1;
    }
    let shared = Arc::new(
        Shared {
            slots,
            mask,
            idx_r: CachePadded::new(AtomicU64::new(0)),
            idx_w: CachePadded::new(AtomicU64::new(0)),
        },
    );
    let writer = RingBufferWriter { inner: shared.clone(), cached_r: 0, local_w: 0 };
    let reader = RingBufferReader { inner: shared, local_r: 0, cached_w: 0, front: None };
    (writer, reader)
}

/// The producer's handle.
#[verifier::reject_recursive_types(T)]
pub struct RingBufferWriter<T> {
    inner: Arc<Shared<T>>,
    cached_r: u64,
    local_w: u64,
}

impl<T> RingBufferWriter<T> {
    /// The handle is whole: its storage has a valid number of slots.
    pub closed spec fn wf(&self) -> bool {
        self.inner.wf()
    }

    /// Number of slots.
    pub closed spec fn cap(&self) -> nat {
        self.inner.slots@.len()
    }

    /// Number of values this writer has published, modulo 2^64.
    pub closed spec fn written(&self) -> u64 {
        self.local_w
    }

    /// The reader's index as this writer last observed it.
    pub closed spec fn seen_read(&self) -> u64 {
        self.cached_r
    }

    /// Number of slots.
    pub fn capacity(&self) -> (c: usize)
        requires
            self.wf(),
        ensures
            c == self.cap(),
    {
        self.inner.slots.len()
    }

    /// Tells whether the buffer is full. When the cached read index says so,
    /// it is first refreshed from the reader's published index.
    pub fn is_full(&mut self) -> (b: bool)
        requires
            old(self).wf(),
        ensures
            final(self).wf(),
            final(self).cap() == old(self).cap(),
            final(self).written() == old(self).written(),
            wsub(old(self).written(), old(self).seen_read()) != old(self).cap() ==> *final(self)
                == *old(self),
            b == (wsub(final(self).written(), final(self).seen_read()) == final(self).cap()),
    {
        let cap = self.inner.slots.len() as u64;
        if distance(self.local_w, self.cached_r) == cap {
            self.cached_r = self.inner.idx_r.load(Ordering::Acquire);
            distance(self.local_w, self.cached_r) == cap
        } else {
            false
        }
    }

    /// Offers `t`. When the buffer is full `t` is handed back and the
    /// writer's index stays; otherwise `t` is stored in the next slot and the
    /// advanced index is published.
    pub fn push(&mut self, t: T) -> (r: Option<T>)
        requires
            old(self).wf(),
        ensures
            final(self).wf(),
            final(self).cap() == old(self).cap(),
            wsub(old(self).written(), old(self).seen_read()) != old(self).cap()
                ==> final(self).seen_read() == old(self).seen_read(),
            r is Some ==> r == Some(t),
            r is Some ==> final(self).written() == old(self).written(),
            r is Some ==> wsub(final(self).written(), final(self).seen_read()) == final(self).cap(),
            r is None ==> final(self).written() == wadd(old(self).written(), 1),
            r is None ==> wsub(old(self).written(), final(self).seen_read()) != final(self).cap(),
    {
        if self.is_full() {
            return Some(t);
        }
        let _vacant = self.inner.slot(self.local_w).swap(Some(t));
        self.local_w = advance(self.local_w);
        self.inner.idx_w.store(self.local_w, Ordering::Release);
        None
    }
}

/// The consumer's handle. A value that a peek has moved out of its slot waits
/// in the handle until it is pulled; its index is published as read only
/// then, so the writer does not reuse the slot before. Such a value is
/// dropped with the reader, every other value still held with the storage:
/// each exactly once.
#[verifier::reject_recursive_types(T)]
pub struct RingBufferReader<T> {
    inner: Arc<Shared<T>>,
    local_r: u64,
    cached_w: u64,
    front: Option<T>,
}

impl<T> RingBufferReader<T> {
    /// The handle is whole: its storage has a valid number of slots, and a
    /// value waits in the handle only while the reader's window is not empty.
    pub closed spec fn wf(&self) -> bool {
        &&& self.inner.wf()
        &&& self.front is Some ==> self.local_r != self.cached_w
    }

    /// Number of slots.
    pub closed spec fn cap(&self) -> nat {
        self.inner.slots@.len()
    }

    /// Number of values this reader has pulled, modulo 2^64.
    pub closed spec fn taken(&self) -> u64 {
        self.local_r
    }

    /// The writer's index as this reader last observed it.
    pub closed spec fn seen_written(&self) -> u64 {
        self.cached_w
    }

    /// The oldest value, when a peek has already moved it out of its slot.
    pub closed spec fn held(&self) -> Option<T> {
        self.front
    }

    /// Number of slots.
    pub fn capacity(&self) -> (c: usize)
        requires
            self.wf(),
        ensures
            c == self.cap(),
    {
        self.inner.slots.len()
    }

    /// Tells whether the buffer is empty. When the cached write index says
    /// so, it is first refreshed from the writer's published index.
    pub fn is_empty(&mut self) -> (b: bool)
        requires
            old(self).wf(),
        ensures
            final(self).wf(),
            final(self).cap() == old(self).cap(),
            final(self).taken() == old(self).taken(),
            final(self).held() == old(self).held(),
            old(self).taken() != old(self).seen_written() ==> *final(self) == *old(self),
            b == (final(self).taken() == final(self).seen_written()),
    {
        if self.local_r == self.cached_w {
            self.cached_w = self.inner.idx_w.load(Ordering::Acquire);
            self.local_r == self.cached_w
        } else {
            false
        }
    }

    /// Makes sure the oldest value waits in the handle, moving it out of its
    /// slot when needed; tells whether one does.
    fn fill_front(&mut self) -> (b: bool)
        requires
            old(self).wf(),
        ensures
            final(self).wf(),
            final(self).cap() == old(self).cap(),
            final(self).taken() == old(self).taken(),
            old(self).held() is Some ==> *final(self) == *old(self),
            b == final(self).held() is Some,
            old(self).held() is None && old(self).taken() == final(self).seen_written() ==> !b,
    {
        if self.front.is_some() {
            return true;
        }
        if self.is_empty() {
            return false;
        }
        self.front = self.inner.slot(self.local_r).swap(None);
        self.front.is_some()
    }

    /// Takes the oldest value and publishes the advanced read index, or gives
    /// nothing when the buffer is empty.
    pub fn pull(&mut self) -> (r: Option<T>)
        requires
            old(self).wf(),
        ensures
            final(self).wf(),
            final(self).cap() == old(self).cap(),
            final(self).held() is None,
            old(self).held() is Some ==> r == old(self).held(),
            r is Some ==> final(self).taken() == wadd(old(self).taken(), 1),
            r is Some ==> old(self).taken() != final(self).seen_written(),
            r is None ==> final(self).taken() == old(self).taken(),
            old(self).held() is None && old(self).taken() == final(self).seen_written() ==> r is None,
    {
        if !self.fill_front() {
            return None;
        }
        let mut value: Option<T> = None;
        std::mem::swap(&mut self.front, &mut value);
        self.local_r = advance(self.local_r);
        self.inner.idx_r.store(self.local_r, Ordering::Release);
        value
    }

    /// The oldest value, left in the buffer, or nothing when it is empty.
    /// The reference borrows the reader, so no pull can happen while it is
    /// held.
    pub fn peek(&mut self) -> (r: Option<&T>)
        requires
            old(self).wf(),
        ensures
            final(self).wf(),
            final(self).cap() == old(self).cap(),
            final(self).taken() == old(self).taken(),
            old(self).held() is Some ==> *final(self) == *old(self),
            r is Some <==> final(self).held() is Some,
            r is Some ==> *r->Some_0 == final(self).held()->Some_0,
            old(self).held() is None && old(self).taken() == final(self).seen_written() ==> r is None,
    {
        self.fill_front();
        self.front.as_ref()
    }

    /// The oldest value, left in the buffer, to be changed through the
    /// reference; nothing when the buffer is empty. The reference borrows the
    /// reader, so no pull can happen while it is held.
    pub fn peek_mut(&mut self) -> (r: Option<&mut T>)
        requires
            old(self).wf(),
        ensures
            final(self).wf(),
            final(self).cap() == old(self).cap(),
            final(self).taken() == old(self).taken(),
            r is None ==> final(self).held() is None,
            r is Some ==> final(self).held() == Some(*final(r->Some_0)),
            r is Some && old(self).held() is Some ==> *r->Some_0 == old(self).held()->Some_0,
            old(self).held() is None && old(self).taken() == final(self).seen_written() ==> r is None,
    {
        self.fill_front();
        self.front.as_mut()
    }
}

} // verus!
