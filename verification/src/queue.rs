//! Moving items from a vector into a queue.

use std::collections::VecDeque;
use vstd::prelude::*;

verus! {

broadcast use vstd::std_specs::vecdeque::group_vec_dequeue_axioms;

/// Moves the items of a vector into a queue, in their order.
pub(crate) fn into_deque<T>(items: Vec<T>) -> (r: VecDeque<T>)
    ensures
        r@ == items@,
{
    let mut items = items;
    let ghost all = items@;
    let mut out: VecDeque<T> = VecDeque::new();
    while items.len() > 0
        invariant
            items@.len() <= all.len(),
            items@ + out@ == all,
        decreases items@.len(),
    {
        let ghost before = items@;
        let ghost moved = out@;
        match items.pop() {
            Some(item) => {
                out.push_front(item);
                assert(items@ + out@ =~= before + moved);
            },
            None => {},
        }
    }
    assert(out@ =~= items@ + out@);
    out
}

} // verus!
