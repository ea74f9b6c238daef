//! Laws of the buffer, stated over the queue model that the contracts of
//! [`crate::ring::Ring`] and of the two handles speak of.
use vstd::prelude::*;
use crate::queue::{after_pull, after_push, front, push_result};

verus! {

/// One call made on a buffer: an offer of a value, or a take.
pub enum Op<T> {
    Push(T),
    Pull,
}

/// Effect of one call on contents `q`: the new contents, the values that
/// entered and the values that came out.
pub open spec fn step<T>(q: Seq<T>, cap: nat, op: Op<T>) -> (Seq<T>, Seq<T>, Seq<T>) {
    match op {
        Op::Push(v) => (
            after_push(q, cap, v),
            if push_result(q, cap, v) is None { seq![v] } else { Seq::empty() },
            Seq::empty(),
        ),
        Op::Pull => (
            after_pull(q),
            Seq::empty(),
            match front(q) {
                Some(x) => seq![x],
                None => Seq::empty(),
            },
        ),
    }
}

/// Effect of a run of calls on contents `q`: the final contents, every value
/// that entered and every value that came out, each in order.
pub open spec fn run<T>(q: Seq<T>, cap: nat, ops: Seq<Op<T>>) -> (Seq<T>, Seq<T>, Seq<T>)
    decreases ops.len(),
{
    if ops.len() == 0 {
        (q, Seq::empty(), Seq::empty())
    } else {
        let first = step(q, cap, ops[0]);
        let rest = run(first.0, cap, ops.drop_first());
        (rest.0, first.1 + rest.1, first.2 + rest.2)
    }
}

/// Offers of each value of `vs`, in order.
pub open spec fn pushes<T>(vs: Seq<T>) -> Seq<Op<T>> {
    vs.map_values(|v: T| Op::Push(v))
}

/// Order preservation: whatever the interleaving of offers and takes, the
/// values that came out followed by those still held are the values held at
/// the start followed by every value that entered, in order: nothing is lost,
/// duplicated or reordered. From an empty buffer, what came out is a prefix
/// of what went in.
pub proof fn lemma_order_preserved<T>(q: Seq<T>, cap: nat, ops: Seq<Op<T>>)
    ensures
        run(q, cap, ops).2 + run(q, cap, ops).0 == q + run(q, cap, ops).1,
        q.len() == 0 ==> run(q, cap, ops).1.take(run(q, cap, ops).2.len() as int) == run(
            q,
            cap,
            ops,
        ).2,
    decreases ops.len(),
{
    if ops.len() > 0 {
        let first = step(q, cap, ops[0]);
        let rest = run(first.0, cap, ops.drop_first());
        lemma_order_preserved(first.0, cap, ops.drop_first());
        assert(first.2 + first.0 =~= q + first.1);
        assert(first.2 + rest.2 + rest.0 =~= first.2 + (rest.2 + rest.0));
        assert(first.2 + (first.0 + rest.1) =~= (first.2 + first.0) + rest.1);
        assert((q + first.1) + rest.1 =~= q + (first.1 + rest.1));
    } else {
        assert(run(q, cap, ops).2 + run(q, cap, ops).0 =~= q + run(q, cap, ops).1);
    }
    if q.len() == 0 {
        let r = run(q, cap, ops);
        assert(r.2 + r.0 =~= r.1);
        assert(r.1.take(r.2.len() as int) =~= r.2);
    }
}

/// Offering at most `cap` values to an empty buffer takes every one of them.
pub proof fn lemma_fill<T>(q: Seq<T>, cap: nat, vs: Seq<T>)
    requires
        q.len() + vs.len() <= cap,
    ensures
        run(q, cap, pushes(vs)).0 == q + vs,
        run(q, cap, pushes(vs)).1 == vs,
    decreases vs.len(),
{
    if vs.len() == 0 {
        assert(q + vs =~= q);
    } else {
        assert(pushes(vs).drop_first() =~= pushes(vs.drop_first()));
        lemma_fill(q.push(vs[0]), cap, vs.drop_first());
        assert(q.push(vs[0]) + vs.drop_first() =~= q + vs);
        assert(seq![vs[0]] + vs.drop_first() =~= vs);
    }
}

/// Capacity reclaim: offering `cap` values to an empty buffer fills it; a
/// further offer is refused and changes nothing; after one take an offer is
/// accepted again and fills the buffer once more.
pub proof fn lemma_capacity_reclaim<T>(cap: nat, vs: Seq<T>, v: T, w: T)
    requires
        vs.len() == cap,
        cap > 0,
    ensures
        run(Seq::empty(), cap, pushes(vs)).0.len() == cap,
        push_result(vs, cap, v) == Some(v),
        after_push(vs, cap, v) == vs,
        after_pull(vs).len() == cap - 1,
        push_result(after_pull(vs), cap, w) is None,
        after_push(after_pull(vs), cap, w).len() == cap,
{
    lemma_fill(Seq::empty(), cap, vs);
    assert(Seq::<T>::empty() + vs =~= vs);
}

/// Peek and take agree: a take returns what a peek just showed, and a value
/// written through the front reference is the one the next take returns, the
/// rest unchanged.
pub proof fn lemma_peek_then_pull<T>(q: Seq<T>, x: T)
    requires
        q.len() > 0,
    ensures
        front(q) == Some(q[0]),
        front(q.update(0, x)) == Some(x),
        after_pull(q.update(0, x)) == after_pull(q),
{
    assert(q.update(0, x).drop_first() =~= q.drop_first());
}

} // verus!
