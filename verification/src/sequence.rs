//! Lists, where the standard library leaves something to do.

use vstd::prelude::*;

verus! {

/// The characters of each text, in the same order.
pub open spec fn texts(strings: Seq<String>) -> Seq<Seq<char>> {
    strings.map_values(|s: String| s@)
}

/// The same items in the opposite order.
pub fn reversed<T>(items: Vec<T>) -> (turned: Vec<T>)
    ensures
        turned@ == items@.reverse(),
{
    let ghost all = items@;
    let mut rest = items;
    let mut turned: Vec<T> = Vec::new();
    while rest.len() > 0
        invariant
            rest@.len() <= all.len(),
            rest@ == all.take(rest@.len() as int),
            turned@.len() == all.len() - rest@.len(),
            forall|i: int| 0 <= i < turned@.len() ==> turned@[i] == all[all.len() - 1 - i],
        decreases rest.len(),
    {
        let ghost n = rest@.len() as int;
        let item = rest.pop().unwrap();
        assert(item == all[n - 1]) by {
            assert(all.take(n)[n - 1] == all[n - 1]);
        }
        assert(rest@ =~= all.take(n - 1));
        turned.push(item);
    }
    assert(turned@ =~= all.reverse());
    turned
}

} // verus!
