//! Steps taken one after the other.

use vstd::prelude::*;

verus! {

/// No step leaves the start unchanged.
pub broadcast proof fn lemma_fold_start<A, B>(items: Seq<A>, start: B, step: spec_fn(B, A) -> B)
    ensures
        #[trigger] items.take(0).fold_left(start, step) == start,
{
    assert(items.take(0).len() == 0);
}

/// One more step goes on from the steps before it.
pub proof fn lemma_fold_next<A, B>(
    items: Seq<A>,
    i: int,
    start: B,
    step: spec_fn(B, A) -> B,
)
    requires
        0 <= i < items.len(),
    ensures
        items.take(i + 1).fold_left(start, step) == step(
            items.take(i).fold_left(start, step),
            items[i],
        ),
{
    assert(items.take(i + 1).drop_last() =~= items.take(i));
    assert(items.take(i + 1).last() == items[i]);
}

/// All steps are the steps up to the last.
pub broadcast proof fn lemma_take_all<A>(items: Seq<A>, n: int)
    requires
        n == items.len(),
    ensures
        #[trigger] items.take(n) == items,
{
    assert(items.take(n) =~= items);
}

/// What `pick` gives for the items, in their order, without those for which it gives nothing.
pub open spec fn picked<A, B>(items: Seq<A>, pick: spec_fn(A) -> Option<B>) -> Seq<B>
    decreases items.len(),
{
    if items.len() == 0 {
        Seq::empty()
    } else {
        let rest = picked(items.drop_last(), pick);
        match pick(items.last()) {
            Some(value) => rest.push(value),
            None => rest,
        }
    }
}

/// One more item adds what is picked for it.
pub proof fn lemma_picked_next<A, B>(items: Seq<A>, i: int, pick: spec_fn(A) -> Option<B>)
    requires
        0 <= i < items.len(),
    ensures
        picked(items.take(i + 1), pick) == (match pick(items[i]) {
            Some(value) => picked(items.take(i), pick).push(value),
            None => picked(items.take(i), pick),
        }),
{
    assert(items.take(i + 1).drop_last() =~= items.take(i));
    assert(items.take(i + 1).last() == items[i]);
}

/// What holds at the start and is kept by every step holds at the end.
pub proof fn lemma_fold_invariant<A, B>(
    items: Seq<A>,
    start: B,
    step: spec_fn(B, A) -> B,
    keep: spec_fn(B) -> bool,
)
    requires
        keep(start),
        forall|b: B, a: A| keep(b) ==> keep(#[trigger] step(b, a)),
    ensures
        keep(items.fold_left(start, step)),
    decreases items.len(),
{
    reveal_with_fuel(Seq::fold_left, 2);
    if items.len() > 0 {
        lemma_fold_invariant(items.drop_last(), start, step, keep);
    }
}

/// The step of one item takes what held before it to what holds after it, where the steps of the
/// other items keep both.
pub proof fn lemma_fold_reaches<A, B>(
    items: Seq<A>,
    item: A,
    start: B,
    step: spec_fn(B, A) -> B,
    before: spec_fn(B) -> bool,
    after: spec_fn(B) -> bool,
)
    requires
        before(start),
        forall|b: B, a: A| a != item && before(b) ==> before(#[trigger] step(b, a)),
        forall|b: B| before(b) ==> after(#[trigger] step(b, item)),
        forall|b: B, a: A| after(b) ==> after(#[trigger] step(b, a)),
    ensures
        items.contains(item) ==> after(items.fold_left(start, step)),
        !items.contains(item) ==> before(items.fold_left(start, step)),
    decreases items.len(),
{
    reveal_with_fuel(Seq::fold_left, 2);
    if items.len() > 0 {
        let front = items.drop_last();
        let last = items.last();
        lemma_fold_reaches(front, item, start, step, before, after);
        assert(items.contains(item) <==> front.contains(item) || last == item) by {
            if items.contains(item) && last != item {
                let k = choose|k: int| 0 <= k < items.len() && items[k] == item;
                assert(front[k] == item);
            }
            if front.contains(item) {
                let k = choose|k: int| 0 <= k < front.len() && front[k] == item;
                assert(items[k] == item);
            }
            assert(items[items.len() - 1] == last);
        }
        let b = front.fold_left(start, step);
        assert(items.fold_left(start, step) == step(b, last));
    }
}

/// What is picked is what `pick` gives for some item.
pub proof fn lemma_picked_members<A, B>(items: Seq<A>, pick: spec_fn(A) -> Option<B>, value: B)
    ensures
        picked(items, pick).contains(value) <==> exists|i: int|
            0 <= i < items.len() && #[trigger] pick(items[i]) == Some(value),
    decreases items.len(),
{
    if items.len() > 0 {
        let front = items.drop_last();
        let last = items.last();
        lemma_picked_members(front, pick, value);
        let rest = picked(front, pick);
        let all = picked(items, pick);
        assert(items[items.len() - 1] == last);
        if all.contains(value) {
            let k = choose|k: int| 0 <= k < all.len() && all[k] == value;
            if k < rest.len() {
                assert(rest[k] == value);
                let i = choose|i: int|
                    0 <= i < front.len() && #[trigger] pick(front[i]) == Some(value);
                assert(pick(items[i]) == Some(value));
            } else {
                assert(pick(items[items.len() - 1]) == Some(value));
            }
        }
        if exists|i: int| 0 <= i < items.len() && #[trigger] pick(items[i]) == Some(value) {
            let i = choose|i: int| 0 <= i < items.len() && #[trigger] pick(items[i]) == Some(value);
            if i < front.len() {
                assert(pick(front[i]) == Some(value));
                let k = choose|k: int| 0 <= k < rest.len() && rest[k] == value;
                assert(all[k] == value);
            } else {
                assert(all[all.len() - 1] == value);
            }
        }
    }
}

/// What `pick` gives for the first item at `from` or later for which it gives something.
pub open spec fn first_picked<A, B>(
    items: Seq<A>,
    pick: spec_fn(A) -> Option<B>,
    from: int,
) -> Option<B>
    decreases items.len() - from,
{
    if from < 0 || from >= items.len() {
        None
    } else if pick(items[from]) is Some {
        pick(items[from])
    } else {
        first_picked(items, pick, from + 1)
    }
}

/// Nothing is picked from no items.
pub broadcast proof fn lemma_picked_start<A, B>(items: Seq<A>, pick: spec_fn(A) -> Option<B>)
    ensures
        #[trigger] picked(items.take(0), pick) == Seq::<B>::empty(),
{
    assert(items.take(0).len() == 0);
}

pub broadcast group group_fold {
    lemma_picked_start,
    lemma_fold_start,
    lemma_take_all,
}

} // verus!
