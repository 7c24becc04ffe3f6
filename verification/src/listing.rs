//! Lists in which each item stands once.

use vstd::prelude::*;

verus! {

/// `items` with `item` in it; one that is already there stays where it is.
pub open spec fn with_item<A>(items: Seq<A>, item: A) -> Seq<A> {
    if items.contains(item) {
        items
    } else {
        items.push(item)
    }
}

/// `items` with each of `extra` in it, taken in order.
pub open spec fn with_items<A>(items: Seq<A>, extra: Seq<A>) -> Seq<A>
    decreases extra.len(),
{
    if extra.len() == 0 {
        items
    } else {
        with_item(with_items(items, extra.drop_last()), extra.last())
    }
}

pub proof fn lemma_with_item<A>(items: Seq<A>, item: A)
    ensures
        items.no_duplicates() ==> with_item(items, item).no_duplicates(),
        forall|m: A| #[trigger]
            with_item(items, item).contains(m) <==> items.contains(m) || m == item,
{
    if !items.contains(item) {
        let more = items.push(item);
        assert(more[items.len() as int] == item);
        assert forall|m: A| #[trigger] more.contains(m) <==> items.contains(m) || m
            == item by {
            if items.contains(m) {
                let i = choose|i: int| 0 <= i < items.len() && items[i] == m;
                assert(more[i] == m);
            }
            if more.contains(m) && m != item {
                let i = choose|i: int| 0 <= i < more.len() && more[i] == m;
                assert(items[i] == m);
            }
        }
    }
}

pub proof fn lemma_with_items<A>(items: Seq<A>, extra: Seq<A>)
    ensures
        items.no_duplicates() ==> with_items(items, extra).no_duplicates(),
        items.len() <= with_items(items, extra).len(),
        with_items(items, extra).take(items.len() as int) == items,
        forall|m: A| #[trigger]
            with_items(items, extra).contains(m) <==> items.contains(m) || extra.contains(m),
    decreases extra.len(),
{
    if extra.len() > 0 {
        let rest = extra.drop_last();
        lemma_with_items(items, rest);
        lemma_with_item(with_items(items, rest), extra.last());
        assert forall|m: A| #[trigger]
            with_items(items, extra).contains(m) <==> items.contains(m) || extra.contains(m) by {
            assert(extra.contains(m) <==> rest.contains(m) || m == extra.last()) by {
                if rest.contains(m) {
                    let i = choose|i: int| 0 <= i < rest.len() && rest[i] == m;
                    assert(extra[i] == m);
                }
                if m == extra.last() {
                    assert(extra[extra.len() - 1] == m);
                }
                if extra.contains(m) && m != extra.last() {
                    let i = choose|i: int| 0 <= i < extra.len() && extra[i] == m;
                    assert(rest[i] == m);
                }
            }
        }
    }
}

pub proof fn lemma_with_items_none_new<A>(items: Seq<A>, extra: Seq<A>)
    requires
        forall|m: A| #[trigger] extra.contains(m) ==> items.contains(m),
    ensures
        with_items(items, extra) == items,
    decreases extra.len(),
{
    if extra.len() > 0 {
        let rest = extra.drop_last();
        assert forall|m: A| #[trigger] rest.contains(m) implies items.contains(m) by {
            let i = choose|i: int| 0 <= i < rest.len() && rest[i] == m;
            assert(extra[i] == m);
            assert(extra.contains(m));
        }
        lemma_with_items_none_new(items, rest);
        assert(extra.contains(extra.last()));
    }
}

pub proof fn lemma_filter<A>(items: Seq<A>, keep: spec_fn(A) -> bool)
    ensures
        items.no_duplicates() ==> items.filter(keep).no_duplicates(),
        forall|m: A| #[trigger]
            items.filter(keep).contains(m) <==> items.contains(m) && keep(m),
    decreases items.len(),
{
    reveal(Seq::filter);
    if items.len() > 0 {
        let rest = items.drop_last();
        let last = items.last();
        lemma_filter(rest, keep);
        assert forall|m: A| items.contains(m) <==> rest.contains(m) || m == last by {
            if rest.contains(m) {
                let i = choose|i: int| 0 <= i < rest.len() && rest[i] == m;
                assert(items[i] == m);
            }
            if m == last {
                assert(items[items.len() - 1] == m);
            }
            if items.contains(m) && m != last {
                let i = choose|i: int| 0 <= i < items.len() && items[i] == m;
                assert(rest[i] == m);
            }
        }
        if keep(last) {
            let kept = rest.filter(keep);
            assert(items.filter(keep) =~= kept.push(last));
            assert forall|m: A| #[trigger]
                items.filter(keep).contains(m) <==> items.contains(m) && keep(m) by {
                if kept.contains(m) {
                    let i = choose|i: int| 0 <= i < kept.len() && kept[i] == m;
                    assert(items.filter(keep)[i] == m);
                }
                if m == last {
                    assert(items.filter(keep)[kept.len() as int] == m);
                }
                if items.filter(keep).contains(m) && m != last {
                    let i = choose|i: int|
                        0 <= i < items.filter(keep).len() && items.filter(keep)[i] == m;
                    assert(kept[i] == m);
                }
            }
            if items.no_duplicates() {
                assert(rest.no_duplicates());
                assert(!kept.contains(last)) by {
                    if rest.contains(last) {
                        let i = choose|i: int| 0 <= i < rest.len() && rest[i] == last;
                        assert(items[i] == items[items.len() - 1]);
                    }
                }
            }
        }
    }
}

pub proof fn lemma_filter_all<A>(items: Seq<A>, keep: spec_fn(A) -> bool)
    requires
        forall|i: int| 0 <= i < items.len() ==> keep(#[trigger] items[i]),
    ensures
        items.filter(keep) == items,
    decreases items.len(),
{
    reveal(Seq::filter);
    if items.len() > 0 {
        assert(keep(items[items.len() - 1]));
        assert forall|i: int| 0 <= i < items.drop_last().len() implies keep(
            #[trigger] items.drop_last()[i],
        ) by {
            assert(keep(items[i]));
        }
        lemma_filter_all(items.drop_last(), keep);
        assert(items.drop_last().push(items.last()) =~= items);
    }
}

/// `items` without the one at `i`, whose place the last one takes.
pub open spec fn swap_removed<A>(items: Seq<A>, i: int) -> Seq<A> {
    items.update(i, items.last()).drop_last()
}

pub proof fn lemma_swap_removed<A>(items: Seq<A>, i: int)
    requires
        0 <= i < items.len(),
        items.no_duplicates(),
    ensures
        swap_removed(items, i).no_duplicates(),
        forall|m: A| #[trigger]
            swap_removed(items, i).contains(m) <==> items.contains(m) && m != items[i],
{
    let fewer = swap_removed(items, i);
    let last = items.len() - 1;
    assert forall|m: A| #[trigger] fewer.contains(m) <==> items.contains(m) && m != items[i] by {
        if fewer.contains(m) {
            let k = choose|k: int| 0 <= k < fewer.len() && fewer[k] == m;
            if k == i {
                assert(items[last] == m);
            } else {
                assert(items[k] == m);
            }
        }
        if items.contains(m) && m != items[i] {
            let k = choose|k: int| 0 <= k < items.len() && items[k] == m;
            if k == last {
                assert(fewer[i] == m);
            } else {
                assert(fewer[k] == m);
            }
        }
    }
}

/// Two lists share nothing and repeat nothing exactly when the one behind the other repeats
/// nothing.
pub proof fn lemma_no_duplicates_concat<A>(a: Seq<A>, b: Seq<A>)
    ensures
        (a + b).no_duplicates() <==> a.no_duplicates() && b.no_duplicates() && forall|m: A| #[trigger]
            a.contains(m) ==> !b.contains(m),
        forall|m: A| #[trigger] (a + b).contains(m) <==> a.contains(m) || b.contains(m),
{
    let all = a + b;
    assert forall|m: A| #[trigger] all.contains(m) <==> a.contains(m) || b.contains(m) by {
        if a.contains(m) {
            let k = choose|k: int| 0 <= k < a.len() && a[k] == m;
            assert(all[k] == m);
        }
        if b.contains(m) {
            let k = choose|k: int| 0 <= k < b.len() && b[k] == m;
            assert(all[a.len() + k] == m);
        }
        if all.contains(m) {
            let k = choose|k: int| 0 <= k < all.len() && all[k] == m;
            if k < a.len() {
                assert(a[k] == m);
            } else {
                assert(b[k - a.len()] == m);
            }
        }
    }
    if all.no_duplicates() {
        assert forall|i: int, j: int| 0 <= i < j < a.len() implies a[i] != a[j] by {
            assert(all[i] != all[j]);
        }
        assert forall|i: int, j: int| 0 <= i < j < b.len() implies b[i] != b[j] by {
            assert(all[a.len() + i] != all[a.len() + j]);
        }
        assert forall|m: A| #[trigger] a.contains(m) implies !b.contains(m) by {
            if b.contains(m) {
                let i = choose|i: int| 0 <= i < a.len() && a[i] == m;
                let j = choose|j: int| 0 <= j < b.len() && b[j] == m;
                assert(all[i] != all[a.len() + j]);
            }
        }
    }
    if a.no_duplicates() && b.no_duplicates() && forall|m: A| #[trigger]
        a.contains(m) ==> !b.contains(m) {
        assert forall|i: int, j: int| 0 <= i < j < all.len() implies all[i] != all[j] by {
            if j < a.len() {
                assert(a[i] != a[j]);
            } else if i >= a.len() {
                assert(b[i - a.len()] != b[j - a.len()]);
            } else {
                assert(a.contains(a[i]));
                assert(b.contains(b[j - a.len()]));
            }
        }
    }
}

/// Items are added in turn: one that is there already makes no difference, and any other stands
/// behind all that are there.
pub proof fn law_items_are_added_in_turn<A>(items: Seq<A>, extra: Seq<A>, item: A)
    ensures
        with_items(items, Seq::empty()) == items,
        with_items(items, extra).contains(item) ==> with_items(items, extra.push(item))
            == with_items(items, extra),
        !with_items(items, extra).contains(item) ==> with_items(items, extra.push(item))
            == with_items(items, extra).push(item),
        items.contains(item) ==> with_item(items, item) == items,
        !items.contains(item) ==> with_item(items, item) == items.push(item),
{
    assert(extra.push(item).drop_last() =~= extra);
}

/// When an item is taken out, the last one takes its place and all others stay in theirs.
pub proof fn law_the_last_item_fills_the_gap<A>(items: Seq<A>, i: int, k: int)
    requires
        0 <= i < items.len(),
        0 <= k < items.len() - 1,
    ensures
        swap_removed(items, i).len() == items.len() - 1,
        k != i ==> swap_removed(items, i)[k] == items[k],
        k == i ==> swap_removed(items, i)[k] == items[items.len() - 1],
{
}

} // verus!
