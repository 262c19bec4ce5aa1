//! Finding the first item of a sequence for which something is found.

use vstd::prelude::*;

verus! {

/// What `find` finds for the first item of `items` for which it finds
/// anything.
pub open spec fn first_some<A, B>(items: Seq<A>, find: spec_fn(A) -> Option<B>) -> Option<B>
    decreases items.len(),
{
    if items.len() == 0 {
        None
    } else {
        match first_some(items.drop_last(), find) {
            Some(found) => Some(found),
            None => find(items.last()),
        }
    }
}

/// Where nothing is found for the items before `index`, the first find is
/// the one at `index`; at the end of the sequence, there is none.
pub proof fn lemma_first_some<A, B>(items: Seq<A>, find: spec_fn(A) -> Option<B>, index: int)
    requires
        0 <= index <= items.len(),
        forall|j: int| 0 <= j < index ==> find(#[trigger] items[j]) is None,
        index < items.len() ==> find(items[index]) is Some,
    ensures
        index < items.len() ==> first_some(items, find) == find(items[index]),
        index == items.len() ==> first_some(items, find) is None,
    decreases items.len(),
{
    if items.len() > 0 {
        let front = items.drop_last();
        assert forall|j: int| 0 <= j < front.len() && j < index implies find(
            #[trigger] front[j],
        ) is None by {
            assert(front[j] == items[j]);
        }
        if index < front.len() {
            assert(front[index] == items[index]);
            lemma_first_some(front, find, index);
        } else {
            lemma_first_some(front, find, front.len() as int);
        }
    }
}

/// Where nothing is found for any item, each item is one for which nothing
/// is found.
pub proof fn lemma_first_some_none<A, B>(items: Seq<A>, find: spec_fn(A) -> Option<B>)
    requires
        first_some(items, find) is None,
    ensures
        forall|j: int| 0 <= j < items.len() ==> find(#[trigger] items[j]) is None,
    decreases items.len(),
{
    if items.len() > 0 {
        let front = items.drop_last();
        lemma_first_some_none(front, find);
        assert forall|j: int| 0 <= j < items.len() implies find(#[trigger] items[j]) is None by {
            if j < front.len() {
                assert(front[j] == items[j]);
            }
        }
    }
}

} // verus!
