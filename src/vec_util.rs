use vstd::prelude::*;

verus! {

/// Moves the elements of `v` into a new vector in reverse order, so that
/// popping from the result yields them front to back.
pub fn into_reversed<T>(v: Vec<T>) -> (r: Vec<T>)
    ensures
        r@.len() == v@.len(),
        forall|j: int| 0 <= j < r@.len() ==> #[trigger] r@[j] == v@[v@.len() - 1 - j],
{
    let ghost items = v@;
    let ghost n = v@.len();
    let mut rest = v;
    let mut reversed: Vec<T> = Vec::new();
    while rest.len() > 0
        invariant
            rest@ == items.take(rest@.len() as int),
            rest@.len() <= n,
            n == items.len(),
            reversed@.len() == n - rest@.len(),
            forall|j: int| 0 <= j < reversed@.len() ==> #[trigger] reversed@[j] == items[n - 1 - j],
        decreases rest@.len(),
    {
        let item = rest.pop().unwrap();
        reversed.push(item);
        assert(rest@ =~= items.take(rest@.len() as int));
    }
    reversed
}

} // verus!
