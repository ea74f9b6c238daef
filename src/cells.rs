//! Declarations of the `crossbeam_utils` items that the shared storage is
//! built from. Verus sees no more of them than is declared here.
use vstd::prelude::*;
use crossbeam_utils::atomic::AtomicCell;
use crossbeam_utils::CachePadded;

verus! {

/// `crossbeam_utils::atomic::AtomicCell`: a cell that two threads may
/// exchange values through. What a cell holds is set by either thread, so it
/// is opaque here.
#[verifier::external_type_specification]
#[verifier::external_body]
#[verifier::reject_recursive_types(T)]
pub struct ExAtomicCell<T>(AtomicCell<T>);

/// `crossbeam_utils::CachePadded`: a value aligned and padded to its own
/// cache line.
#[verifier::external_type_specification]
#[verifier::external_body]
#[verifier::reject_recursive_types(T)]
pub struct ExCachePadded<T>(CachePadded<T>);

/// Relies on `AtomicCell::new`, which makes a cell holding `val`.
pub assume_specification<T>[ AtomicCell::<T>::new ](val: T) -> AtomicCell<T>;

/// Relies on `AtomicCell::swap`, which stores `val` and returns the value
/// held before. That value may have been stored by the other thread, so
/// nothing is known of it.
pub assume_specification<T>[ AtomicCell::<T>::swap ](cell: &AtomicCell<T>, val: T) -> T;

/// Relies on `CachePadded::new`, which pads `t` to a cache line.
pub assume_specification<T>[ CachePadded::<T>::new ](t: T) -> CachePadded<T>;

/// Relies on `CachePadded`'s `Deref`, which gives access to the padded value.
pub assume_specification<T>[ <CachePadded<T> as core::ops::Deref>::deref ](
    c: &CachePadded<T>,
) -> &T;

} // verus!
