//! What holds of every run of writes and reads on one buffer.
use vstd::prelude::*;

use crate::model::{after_pull, after_push};

verus! {

/// One operation on the buffer: a write of a value, or a read.
pub enum Step<T> {
    Push(T),
    Pull,
}

/// A run of operations from a buffer of `capacity` holding `q`: the values
/// whose write succeeded, in the order written; the values the reads returned,
/// in the order returned; and the elements still stored at the end.
pub open spec fn run<T>(capacity: nat, q: Seq<T>, steps: Seq<Step<T>>) -> (Seq<T>, Seq<T>, Seq<T>)
    decreases steps.len(),
{
    if steps.len() == 0 {
        (Seq::empty(), Seq::empty(), q)
    } else {
        let (accepted, taken, left) = run(capacity, q, steps.drop_last());
        match steps.last() {
            Step::Push(v) => match after_push(left, capacity, v) {
                Some(next) => (accepted.push(v), taken, next),
                None => (accepted, taken, left),
            },
            Step::Pull => match after_pull(left) {
                Some((v, next)) => (accepted, taken.push(v), next),
                None => (accepted, taken, left),
            },
        }
    }
}

/// The writes of `vs`, one after another.
pub open spec fn pushes<T>(vs: Seq<T>) -> Seq<Step<T>> {
    vs.map_values(|v: T| Step::Push(v))
}

/// Nothing is lost and nothing is made up: what was stored at the start and
/// what was written, in that order, is what was read and what is left.
pub proof fn lemma_run_conserves<T>(capacity: nat, q: Seq<T>, steps: Seq<Step<T>>)
    ensures
        q + run(capacity, q, steps).0 == run(capacity, q, steps).1 + run(capacity, q, steps).2,
    decreases steps.len(),
{
    if steps.len() > 0 {
        lemma_run_conserves(capacity, q, steps.drop_last());
        let (accepted, taken, left) = run(capacity, q, steps.drop_last());
        match steps.last() {
            Step::Push(v) => {
                if left.len() < capacity {
                    assert(q + accepted.push(v) =~= (q + accepted).push(v));
                    assert(taken + left.push(v) =~= (taken + left).push(v));
                }
            },
            Step::Pull => {
                if left.len() > 0 {
                    assert(taken.push(left[0]) + left.drop_first() =~= taken + left);
                }
            },
        }
    }
}

/// From a buffer of capacity `n`, `n` writes in a row all succeed, and the
/// next one is refused as full.
pub proof fn lemma_fills_to_capacity<T>(vs: Seq<T>, extra: T)
    ensures
        run(vs.len(), Seq::empty(), pushes(vs)) == (vs, Seq::<T>::empty(), vs),
        run(vs.len(), Seq::empty(), pushes(vs.push(extra))) == (vs, Seq::<T>::empty(), vs),
{
    lemma_pushes_within_capacity(vs.len(), vs);
    assert(pushes(vs.push(extra)).drop_last() =~= pushes(vs));
}

proof fn lemma_pushes_within_capacity<T>(capacity: nat, vs: Seq<T>)
    requires
        vs.len() <= capacity,
    ensures
        run(capacity, Seq::empty(), pushes(vs)) == (vs, Seq::<T>::empty(), vs),
    decreases vs.len(),
{
    if vs.len() == 0 {
        assert(pushes(vs) =~= Seq::<Step<T>>::empty());
    } else {
        lemma_pushes_within_capacity(capacity, vs.drop_last());
        assert(pushes(vs).drop_last() =~= pushes(vs.drop_last()));
        assert(vs.drop_last().push(vs.last()) =~= vs);
    }
}

/// A buffer just made holds nothing, so its first read finds it empty.
pub proof fn lemma_fresh_buffer_is_empty<T>()
    ensures
        after_pull(Seq::<T>::empty()) is None,
{
}

/// From an empty buffer, the reads return the written values in the order they
/// were written: what was read and what is left make up what was written.
pub proof fn lemma_first_in_first_out<T>(capacity: nat, steps: Seq<Step<T>>)
    ensures
        run(capacity, Seq::empty(), steps).0 == run(capacity, Seq::empty(), steps).1 + run(
            capacity,
            Seq::empty(),
            steps,
        ).2,
{
    lemma_run_conserves(capacity, Seq::<T>::empty(), steps);
    assert(Seq::<T>::empty() + run(capacity, Seq::empty(), steps).0 =~= run(
        capacity,
        Seq::empty(),
        steps,
    ).0);
}

/// From an empty buffer, each value read is the very value written at the same
/// position of the writes that succeeded.
pub proof fn lemma_round_trip<T>(capacity: nat, steps: Seq<Step<T>>)
    ensures
        run(capacity, Seq::empty(), steps).1.len() <= run(capacity, Seq::empty(), steps).0.len(),
        forall|i: int|
            0 <= i < run(capacity, Seq::empty(), steps).1.len() ==> #[trigger] run(
                capacity,
                Seq::empty(),
                steps,
            ).1[i] == run(capacity, Seq::empty(), steps).0[i],
{
    lemma_first_in_first_out(capacity, steps);
}

/// From an empty buffer, once everything has been read, the reads returned as
/// many values as the writes stored, each as often as it was written.
pub proof fn lemma_drained_loses_nothing<T>(capacity: nat, steps: Seq<Step<T>>)
    requires
        run(capacity, Seq::empty(), steps).2.len() == 0,
    ensures
        run(capacity, Seq::empty(), steps).1.len() == run(capacity, Seq::empty(), steps).0.len(),
        run(capacity, Seq::empty(), steps).1.to_multiset() =~= run(
            capacity,
            Seq::empty(),
            steps,
        ).0.to_multiset(),
{
    lemma_first_in_first_out(capacity, steps);
    let (accepted, taken, left) = run(capacity, Seq::empty(), steps);
    assert(taken + left =~= taken);
}

/// From an empty buffer, the values of any one producer (those on which
/// `from_producer` holds) come out as a prefix of that producer's successful
/// writes, in the order it wrote them, however the writes of all producers
/// are interleaved.
pub proof fn lemma_producer_order_kept<T>(
    capacity: nat,
    steps: Seq<Step<T>>,
    from_producer: spec_fn(T) -> bool,
)
    ensures
        run(capacity, Seq::empty(), steps).1.filter(from_producer) == run(
            capacity,
            Seq::empty(),
            steps,
        ).0.filter(from_producer).take(
            run(capacity, Seq::empty(), steps).1.filter(from_producer).len() as int,
        ),
        run(capacity, Seq::empty(), steps).1.filter(from_producer).len() <= run(
            capacity,
            Seq::empty(),
            steps,
        ).0.filter(from_producer).len(),
{
    lemma_first_in_first_out(capacity, steps);
    let (accepted, taken, left) = run(capacity, Seq::empty(), steps);
    Seq::filter_distributes_over_add(taken, left, from_producer);
    let a = taken.filter(from_producer);
    let b = left.filter(from_producer);
    assert((a + b).take(a.len() as int) =~= a);
}

} // verus!
