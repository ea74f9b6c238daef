//! Arithmetic of the index protocol: capacities, wrapping occupancy and slot
//! positions.
//!
//! Indices are `u64` counters that wrap at 2^64 whatever the platform's word
//! size. A slot is found by masking an index with `capacity - 1`, which for a
//! power-of-two capacity keeps exactly the low bits that count modulo the
//! capacity.
use vstd::prelude::*;

verus! {

/// A capacity is valid when it is a non-zero power of two.
pub open spec fn capacity_ok(cap: usize) -> bool {
    cap != 0 && cap & ((cap - 1) as usize) == 0
}

/// A mask of low bits: one less than a power of two.
pub open spec fn mask_ok(mask: u64) -> bool {
    mask & wadd(mask, 1) == 0
}

/// The sum `a + b` modulo 2^64.
pub open spec fn wadd(a: u64, b: u64) -> u64 {
    (a + b) as u64
}

/// The difference `a - b` modulo 2^64: for a write index `a` and a read
/// index `b`, the number of elements between them.
pub open spec fn wsub(a: u64, b: u64) -> u64 {
    (a - b) as u64
}

/// Tells whether `capacity` is a non-zero power of two.
pub fn is_valid_capacity(capacity: usize) -> (r: bool)
    ensures
        r == capacity_ok(capacity),
{
    capacity != 0 && capacity & (capacity - 1) == 0
}

/// The mask of a valid capacity.
pub fn mask_of(capacity: usize) -> (m: u64)
    requires
        capacity_ok(capacity),
    ensures
        m as int == capacity - 1,
        mask_ok(m),
{
    let m = (capacity - 1) as u64;
    assert(mask_ok(m)) by (bit_vector)
        requires
            m == (capacity - 1) as u64,
            capacity != 0,
            capacity & ((capacity - 1) as usize) == 0,
    ;
    m
}

/// The wrapping difference `w - r`.
pub fn distance(w: u64, r: u64) -> (d: u64)
    ensures
        d == wsub(w, r),
{
    let d = w.wrapping_sub(r);
    assert(d == wsub(w, r)) by (bit_vector)
        requires
            d == w.wrapping_sub(r),
    ;
    d
}

/// The index after `i`, wrapping to zero after the largest index.
pub fn advance(i: u64) -> (j: u64)
    ensures
        j == wadd(i, 1),
{
    let j = i.wrapping_add(1);
    assert(j == wadd(i, 1)) by (bit_vector)
        requires
            j == i.wrapping_add(1),
    ;
    j
}

/// The slot of an index lies within the mask.
pub proof fn lemma_slot_in_range(i: u64, mask: u64)
    ensures
        i & mask <= mask,
{
    assert(i & mask <= mask) by (bit_vector);
}

/// Counting `j` on from `r`, with `j` within the mask, the slot reached lies
/// `j` slots after the slot of `r`.
pub proof fn lemma_slot_offset(r: u64, j: u64, mask: u64)
    requires
        mask_ok(mask),
        j <= mask,
    ensures
        wsub(wadd(r, j) & mask, r) & mask == j,
{
    assert(wsub(wadd(r, j) & mask, r) & mask == j) by (bit_vector)
        requires
            mask & wadd(mask, 1) == 0,
            j <= mask,
    ;
}

/// Every slot is reached from `r` by counting on its offset from `r`.
pub proof fn lemma_slot_from_offset(r: u64, p: u64, mask: u64)
    requires
        mask_ok(mask),
        p <= mask,
    ensures
        wadd(r, wsub(p, r) & mask) & mask == p,
{
    assert(wadd(r, wsub(p, r) & mask) & mask == p) by (bit_vector)
        requires
            mask & wadd(mask, 1) == 0,
            p <= mask,
    ;
}

/// Counting the distance from `r` to `w` on from `r` reaches `w`.
pub proof fn lemma_add_distance(r: u64, w: u64)
    ensures
        wadd(r, wsub(w, r)) == w,
{
    assert(wadd(r, wsub(w, r)) == w) by (bit_vector);
}

/// Advancing the write index adds one element; advancing the read index
/// takes one away.
pub proof fn lemma_advance_distance(w: u64, r: u64)
    ensures
        wsub(w, r) < u64::MAX ==> wsub(wadd(w, 1), r) == wsub(w, r) + 1,
        wsub(w, r) > 0 ==> wsub(w, wadd(r, 1)) == wsub(w, r) - 1,
{
    assert(wsub(w, r) < 0xffff_ffff_ffff_ffffu64 ==> wsub(wadd(w, 1), r) == wadd(wsub(w, r), 1))
        by (bit_vector);
    assert(wsub(w, r) > 0 ==> wsub(w, wadd(r, 1)) == wsub(wsub(w, r), 1)) by (bit_vector);
}

/// Two indices are equal exactly when nothing lies between them.
pub proof fn lemma_distance_zero(w: u64, r: u64)
    ensures
        (wsub(w, r) == 0) == (w == r),
{
    assert((wsub(w, r) == 0) == (w == r)) by (bit_vector);
}

/// Counting `j + 1` on from `r` is counting `j` on from the index after `r`.
pub proof fn lemma_shift(r: u64, j: u64)
    requires
        j < u64::MAX,
    ensures
        wadd(wadd(r, 1), j) == wadd(r, (j + 1) as u64),
{
    assert(wadd(wadd(r, 1), j) == wadd(r, wadd(j, 1))) by (bit_vector);
}

/// The offset of a slot from the slot after `r` is one less than its offset
/// from `r`, wrapping to the mask for the slot of `r` itself.
pub proof fn lemma_offset_after_advance(r: u64, p: u64, mask: u64)
    requires
        mask_ok(mask),
    ensures
        wsub(p, r) & mask != 0 ==> wsub(p, wadd(r, 1)) & mask == (wsub(p, r) & mask) - 1,
        wsub(p, r) & mask == 0 ==> wsub(p, wadd(r, 1)) & mask == mask,
{
    assert(wsub(p, r) & mask != 0 ==> wsub(p, wadd(r, 1)) & mask == wsub(wsub(p, r) & mask, 1))
        by (bit_vector)
        requires
            mask & wadd(mask, 1) == 0,
    ;
    assert(wsub(p, r) & mask == 0 ==> wsub(p, wadd(r, 1)) & mask == mask) by (bit_vector)
        requires
            mask & wadd(mask, 1) == 0,
    ;
}

} // verus!
