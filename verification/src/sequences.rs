//! Walking several sequences side by side.

use std::collections::VecDeque;
use vstd::prelude::*;

verus! {

/// The pairs of the items that stand at the same place in `left` and `right`,
/// up to the end of the shorter one.
pub open spec fn zipped<A, B>(left: Seq<A>, right: Seq<B>) -> Seq<(A, B)> {
    Seq::new(
        if left.len() <= right.len() {
            left.len()
        } else {
            right.len()
        },
        |i: int| (left[i], right[i]),
    )
}

/// Selecting items and making something of each goes through appending an item.
pub(crate) proof fn lemma_filter_map_push<A, B>(
    items: Seq<A>,
    item: A,
    selected: spec_fn(A) -> bool,
    made: spec_fn(A) -> B,
)
    ensures
        items.push(item).filter(selected).map_values(made) == if selected(item) {
            items.filter(selected).map_values(made).push(made(item))
        } else {
            items.filter(selected).map_values(made)
        },
{
    items.lemma_filter_push(item, selected);
    if selected(item) {
        assert(items.filter(selected).push(item).map_values(made) =~= items.filter(
            selected,
        ).map_values(made).push(made(item)));
    }
}

/// The items in the same order, as a queue.
pub(crate) fn queue<T>(items: Vec<T>) -> (queue: VecDeque<T>)
    ensures
        queue@ == items@,
{
    let mut queue: VecDeque<T> = VecDeque::with_capacity(items.len());
    for item in it: items
        invariant
            it.seq() == items@,
            queue@ =~= items@.take(it.index() as int),
    {
        queue.push_back(item);
    }
    assert(items@.take(items@.len() as int) =~= items@);
    queue
}

/// Pairs the items that stand at the same place; what the longer one has in
/// excess is dropped.
pub(crate) fn zip<A, B>(left: Vec<A>, right: Vec<B>) -> (pairs: Vec<(A, B)>)
    ensures
        pairs@ == zipped(left@, right@),
{
    let mut pairs: Vec<(A, B)> = Vec::with_capacity(left.len());
    let ghost others = right@;
    let mut rest: VecDeque<B> = queue(right);
    for item in it: left
        invariant
            it.seq() == left@,
            others == right@,
            pairs@.len() == it.index(),
            it.index() <= others.len(),
            rest@ =~= others.skip(it.index() as int),
            forall|i: int| 0 <= i < pairs@.len() ==> pairs@[i] == (left@[i], others[i]),
    {
        match rest.pop_front() {
            Some(other) => {
                pairs.push((item, other));
            },
            None => {
                assert(pairs@ =~= zipped(left@, right@));
                return pairs;
            },
        }
    }
    assert(pairs@ =~= zipped(left@, right@));
    pairs
}

} // verus!
