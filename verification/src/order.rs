//! Going through a vector from its first item while taking the items out.
use vstd::prelude::*;

verus! {

/// The same items, last first.
pub fn reversed<T>(items: Vec<T>) -> (turned: Vec<T>)
    ensures
        turned@ == items@.reverse(),
{
    let ghost all = items@;
    let mut rest = items;
    let mut turned: Vec<T> = Vec::new();
    while rest.len() > 0
        invariant
            rest@ == all.take(rest.len() as int),
            rest.len() <= all.len(),
            turned.len() == all.len() - rest.len(),
            forall|k: int| 0 <= k < turned.len() ==> #[trigger] turned[k] == all[all.len() - 1 - k],
        decreases rest.len(),
    {
        let item = rest.pop().unwrap();
        turned.push(item);
    }
    assert(turned@ =~= all.reverse());
    turned
}

} // verus!
