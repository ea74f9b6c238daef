//! The abstract behaviour of a bounded first-in first-out buffer, over the
//! sequence of values it holds, oldest first.
use vstd::prelude::*;

verus! {

/// The contents after offering `v` to a buffer of capacity `cap` holding `q`:
/// `v` is appended when there is room, and nothing changes otherwise.
pub open spec fn after_push<T>(q: Seq<T>, cap: nat, v: T) -> Seq<T> {
    if q.len() < cap {
        q.push(v)
    } else {
        q
    }
}

/// What an offer of `v` hands back: nothing when it was taken, `v` itself when
/// the buffer was full.
pub open spec fn push_result<T>(q: Seq<T>, cap: nat, v: T) -> Option<T> {
    if q.len() < cap {
        None
    } else {
        Some(v)
    }
}

/// The oldest value, if any.
pub open spec fn front<T>(q: Seq<T>) -> Option<T> {
    if q.len() > 0 {
        Some(q[0])
    } else {
        None
    }
}

/// The contents after taking the oldest value, if any.
pub open spec fn after_pull<T>(q: Seq<T>) -> Seq<T> {
    if q.len() > 0 {
        q.drop_first()
    } else {
        q
    }
}

} // verus!
