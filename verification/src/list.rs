//! Taking a list apart from its first item on, without copying the items.

use vstd::prelude::*;

verus! {

/// The items of `list` in the opposite order, so that popping from the
/// result hands them out first to last.
pub fn reversed<T>(list: Vec<T>) -> (back: Vec<T>)
    ensures
        back@ == list@.reverse(),
{
    let ghost all = list@;
    let mut source = list;
    let mut back: Vec<T> = Vec::new();
    assert(all =~= all.take(all.len() as int));
    while source.len() > 0
        invariant
            source@ == all.take(source.len() as int),
            source.len() + back.len() == all.len(),
            forall|j: int| 0 <= j < back.len() ==> back@[j] == all[all.len() - 1 - j],
        decreases source.len(),
    {
        let item = source.pop().unwrap();
        back.push(item);
        assert(source@ =~= all.take(source.len() as int));
    }
    assert(back@ =~= all.reverse());
    back
}

} // verus!
