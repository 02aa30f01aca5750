//! Facts about sequences that the datasets share.

use vstd::prelude::*;

verus! {

pub proof fn lemma_filter_push<T>(items: Seq<T>, item: T, keep: spec_fn(T) -> bool)
    ensures
        items.push(item).filter(keep) == (if keep(item) {
            items.filter(keep).push(item)
        } else {
            items.filter(keep)
        }),
{
    reveal(Seq::filter);
    assert(items.push(item).drop_last() =~= items);
}

pub proof fn lemma_kept_len<T>(items: Seq<T>, keep: spec_fn(T) -> bool)
    ensures
        items.filter(keep).len() <= items.len(),
    decreases items.len(),
{
    reveal(Seq::filter);
    if items.len() > 0 {
        lemma_kept_len(items.drop_last(), keep);
    }
}

pub proof fn lemma_filter_twice<T>(
    items: Seq<T>,
    first: spec_fn(T) -> bool,
    second: spec_fn(T) -> bool,
    both: spec_fn(T) -> bool,
)
    requires
        forall|item: T| #[trigger] both(item) == (first(item) && second(item)),
    ensures
        items.filter(first).filter(second) == items.filter(both),
    decreases items.len(),
{
    reveal(Seq::filter);
    if items.len() > 0 {
        lemma_filter_twice(items.drop_last(), first, second, both);
        lemma_filter_push(items.drop_last().filter(first), items.last(), second);
        assert(both(items.last()) == (first(items.last()) && second(items.last())));
    }
}

pub proof fn lemma_filter_same<T>(
    items: Seq<T>,
    keep: spec_fn(T) -> bool,
    also: spec_fn(T) -> bool,
)
    requires
        forall|item: T| #[trigger] keep(item) == also(item),
    ensures
        items.filter(keep) == items.filter(also),
{
    assert(keep =~= also);
}

pub proof fn lemma_filter_contains<T>(items: Seq<T>, item: T, keep: spec_fn(T) -> bool)
    ensures
        items.filter(keep).contains(item) <==> items.contains(item) && keep(item),
    decreases items.len(),
{
    reveal(Seq::filter);
    if items.len() > 0 {
        let earlier = items.drop_last();
        lemma_filter_contains(earlier, item, keep);
        assert(items =~= earlier.push(items.last()));
        lemma_push_contains(earlier, items.last(), item);
        lemma_push_contains(earlier.filter(keep), items.last(), item);
    }
}

pub proof fn lemma_push_contains<T>(items: Seq<T>, last: T, item: T)
    ensures
        items.push(last).contains(item) <==> items.contains(item) || item == last,
{
    let more = items.push(last);
    if items.contains(item) {
        let i = choose|i: int| 0 <= i < items.len() && items[i] == item;
        assert(more[i] == item);
    }
    assert(more[items.len() as int] == last);
}

pub proof fn lemma_filter_none<T>(items: Seq<T>, keep: spec_fn(T) -> bool)
    ensures
        (forall|item: T| !#[trigger] keep(item)) ==> items.filter(keep) == Seq::<T>::empty(),
    decreases items.len(),
{
    reveal(Seq::filter);
    if items.len() > 0 {
        lemma_filter_none(items.drop_last(), keep);
    }
    if forall|item: T| !#[trigger] keep(item) {
        assert(items.filter(keep) =~= Seq::<T>::empty());
    }
}

pub proof fn lemma_filter_all<T>(items: Seq<T>, keep: spec_fn(T) -> bool)
    ensures
        (forall|item: T| #[trigger] keep(item)) ==> items.filter(keep) == items,
    decreases items.len(),
{
    reveal(Seq::filter);
    if items.len() > 0 {
        lemma_filter_all(items.drop_last(), keep);
    }
    if forall|item: T| #[trigger] keep(item) {
        assert(items.filter(keep) =~= items);
    }
}

pub proof fn lemma_filter_count<T>(items: Seq<T>, item: T, keep: spec_fn(T) -> bool)
    ensures
        items.filter(keep).to_multiset().count(item) == (if keep(item) {
            items.to_multiset().count(item)
        } else {
            0
        }),
    decreases items.len(),
{
    broadcast use vstd::seq_lib::group_to_multiset_ensures;

    reveal(Seq::filter);
    if items.len() > 0 {
        let earlier = items.drop_last();
        lemma_filter_count(earlier, item, keep);
        assert(items =~= earlier.push(items.last()));
    } else {
        assert(!items.contains(item));
        assert(!items.filter(keep).contains(item));
    }
}

} // verus!
