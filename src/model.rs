//! The buffer as a first-in first-out queue of bounded length: what one write
//! or one read does to the sequence of stored elements.
use vstd::prelude::*;

verus! {

/// The stored elements after writing `v` into a queue `q` that may hold
/// `capacity` elements, or `None` when `q` is already full.
pub open spec fn after_push<T>(q: Seq<T>, capacity: nat, v: T) -> Option<Seq<T>> {
    if q.len() < capacity {
        Some(q.push(v))
    } else {
        None
    }
}

/// The element that a read takes out of `q` with the elements that stay, or
/// `None` when `q` is empty.
pub open spec fn after_pull<T>(q: Seq<T>) -> Option<(T, Seq<T>)> {
    if q.len() > 0 {
        Some((q[0], q.drop_first()))
    } else {
        None
    }
}

} // verus!
