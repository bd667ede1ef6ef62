//! Small lemmas tying a vector's deep view to the vector operations the
//! builders in this crate use.

use vstd::prelude::*;

verus! {

/// Pushing onto a vector pushes the element's view onto the deep view.
pub proof fn lemma_push_deep<T: DeepView>(pre: Vec<T>, post: Vec<T>, x: T)
    requires
        post@ == pre@.push(x),
    ensures
        post.deep_view() == pre.deep_view().push(x.deep_view()),
{
    assert(post.deep_view() =~= pre.deep_view().push(x.deep_view()));
}

/// Popping the last element drops the last element of the deep view.
pub proof fn lemma_pop_deep<T: DeepView>(pre: Vec<T>, post: Vec<T>, x: T)
    requires
        pre@.len() > 0,
        post@ == pre@.drop_last(),
        x == pre@.last(),
    ensures
        post.deep_view() == pre.deep_view().drop_last(),
        x.deep_view() == pre.deep_view().last(),
{
    assert(post.deep_view() =~= pre.deep_view().drop_last());
}

/// Removing the front element skips the first element of the deep view.
pub proof fn lemma_remove_front_deep<T: DeepView>(pre: Vec<T>, post: Vec<T>, x: T)
    requires
        pre@.len() > 0,
        post@ == pre@.remove(0),
        x == pre@[0],
    ensures
        post.deep_view() == pre.deep_view().skip(1),
        x.deep_view() == pre.deep_view()[0],
{
    assert(post.deep_view() =~= pre.deep_view().skip(1));
}

/// Removing an element and inserting a replacement at the same position
/// updates that position of the deep view.
pub proof fn lemma_update_deep<T: DeepView>(pre: Vec<T>, mid: Vec<T>, post: Vec<T>, k: int, x: T)
    requires
        0 <= k < pre@.len(),
        mid@ == pre@.remove(k),
        post@ == mid@.insert(k, x),
    ensures
        post.deep_view() == pre.deep_view().update(k, x.deep_view()),
{
    assert(post.deep_view() =~= pre.deep_view().update(k, x.deep_view()));
}

} // verus!
