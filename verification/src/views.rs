//! How the deep view of a vector follows the vector: the two facts that
//! the loops that fill or change a vector rest on.

use vstd::prelude::*;

verus! {

/// Pushing an item onto a vector pushes the item's view onto the vector's
/// deep view.
pub proof fn lemma_push_deep_view<T: DeepView>(before: Vec<T>, after: Vec<T>, item: T)
    requires
        after@ == before@.push(item),
    ensures
        after.deep_view() == before.deep_view().push(item.deep_view()),
{
    assert(after.deep_view() =~= before.deep_view().push(item.deep_view()));
}

/// Replacing an item of a vector replaces the item's view in the vector's
/// deep view.
pub proof fn lemma_update_deep_view<T: DeepView>(before: Vec<T>, after: Vec<T>, at: int, item: T)
    requires
        0 <= at < before@.len(),
        after@ == before@.update(at, item),
    ensures
        after.deep_view() == before.deep_view().update(at, item.deep_view()),
{
    assert(after.deep_view() =~= before.deep_view().update(at, item.deep_view()));
}

} // verus!
