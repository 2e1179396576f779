//! Lists in the order of numeric keys.

use vstd::prelude::*;

verus! {

/// A list that is in the order of its keys, with one more item put behind all that have no
/// larger key.
pub open spec fn placed_by<T>(items: Seq<T>, item: T, key: spec_fn(T) -> int) -> Seq<T>
    decreases items.len(),
{
    if items.len() > 0 && key(item) < key(items.last()) {
        placed_by(items.drop_last(), item, key).push(items.last())
    } else {
        items.push(item)
    }
}

/// The items in the order of their keys; items with the same key stay in the given order.
pub open spec fn sorted_by_key<T>(items: Seq<T>, key: spec_fn(T) -> int) -> Seq<T>
    decreases items.len(),
{
    if items.len() == 0 {
        items
    } else {
        placed_by(sorted_by_key(items.drop_last(), key), items.last(), key)
    }
}

/// Whether no item stands behind one with a larger key.
pub open spec fn ascending<T>(items: Seq<T>, key: spec_fn(T) -> int) -> bool {
    forall|i: int, j: int|
        0 <= i < j < items.len() ==> key(#[trigger] items[i]) <= key(#[trigger] items[j])
}

/// Whether no two items have the same key.
pub open spec fn distinct_keys<T>(items: Seq<T>, key: spec_fn(T) -> int) -> bool {
    forall|i: int, j: int|
        0 <= i < j < items.len() ==> key(#[trigger] items[i]) != key(#[trigger] items[j])
}

proof fn lemma_placed_at<T>(items: Seq<T>, item: T, key: spec_fn(T) -> int, p: int)
    requires
        0 <= p <= items.len(),
        p > 0 ==> key(items[p - 1]) <= key(item),
        forall|i: int| p <= i < items.len() ==> key(item) < key(#[trigger] items[i]),
    ensures
        placed_by(items, item, key) == items.insert(p, item),
    decreases items.len(),
{
    if p < items.len() {
        let short = items.drop_last();
        lemma_placed_at(short, item, key, p);
        assert(short.insert(p, item).push(items.last()) =~= items.insert(p, item));
    } else {
        assert(items.push(item) =~= items.insert(p, item));
    }
}

proof fn lemma_placed_items<T>(items: Seq<T>, item: T, key: spec_fn(T) -> int)
    ensures
        placed_by(items, item, key).to_multiset() == items.to_multiset().insert(item),
        placed_by(items, item, key).len() == items.len() + 1,
    decreases items.len(),
{
    broadcast use vstd::seq_lib::group_to_multiset_ensures;

    if items.len() > 0 && key(item) < key(items.last()) {
        lemma_placed_items(items.drop_last(), item, key);
        assert(items =~= items.drop_last().push(items.last()));
        assert(items.to_multiset().insert(item) =~= items.drop_last().to_multiset().insert(
            item,
        ).insert(items.last()));
    }
}

/// Sorting neither adds nor loses items.
pub proof fn lemma_sorted_items<T>(items: Seq<T>, key: spec_fn(T) -> int)
    ensures
        sorted_by_key(items, key).to_multiset() == items.to_multiset(),
        sorted_by_key(items, key).len() == items.len(),
    decreases items.len(),
{
    broadcast use vstd::seq_lib::group_to_multiset_ensures;

    if items.len() > 0 {
        lemma_sorted_items(items.drop_last(), key);
        lemma_placed_items(sorted_by_key(items.drop_last(), key), items.last(), key);
        assert(items =~= items.drop_last().push(items.last()));
    }
}

proof fn lemma_placed_ascending<T>(items: Seq<T>, item: T, key: spec_fn(T) -> int)
    requires
        ascending(items, key),
    ensures
        ascending(placed_by(items, item, key), key),
    decreases items.len(),
{
    let out = placed_by(items, item, key);
    if items.len() > 0 && key(item) < key(items.last()) {
        let short = items.drop_last();
        let inner = placed_by(short, item, key);
        lemma_placed_ascending(short, item, key);
        lemma_placed_items(short, item, key);
        assert forall|i: int, j: int| 0 <= i < j < out.len() implies key(#[trigger] out[i]) <= key(
            #[trigger] out[j],
        ) by {
            if j == out.len() - 1 {
                assert(out[i] == inner[i]);
                broadcast use vstd::seq_lib::group_to_multiset_ensures;

                assert(inner.contains(inner[i]));
                assert(inner.to_multiset().count(inner[i]) > 0);
                if inner[i] != item {
                    assert(short.to_multiset().count(inner[i]) > 0);
                    assert(short.contains(inner[i]));
                    let k = choose|k: int| 0 <= k < short.len() && short[k] == inner[i];
                    assert(items[k] == inner[i]);
                    assert(key(items[k]) <= key(items[items.len() - 1]));
                }
            } else {
                assert(out[i] == inner[i] && out[j] == inner[j]);
            }
        }
    } else {
        assert forall|i: int, j: int| 0 <= i < j < out.len() implies key(#[trigger] out[i]) <= key(
            #[trigger] out[j],
        ) by {
            assert(out[i] == items[i]);
            if j < items.len() {
                assert(out[j] == items[j]);
            } else if i < items.len() - 1 {
                assert(key(items[i]) <= key(items[items.len() - 1]));
            }
        }
    }
}

/// Sorting gives an ascending list.
pub proof fn lemma_sorted_ascending<T>(items: Seq<T>, key: spec_fn(T) -> int)
    ensures
        ascending(sorted_by_key(items, key), key),
    decreases items.len(),
{
    if items.len() > 0 {
        lemma_sorted_ascending(items.drop_last(), key);
        lemma_placed_ascending(sorted_by_key(items.drop_last(), key), items.last(), key);
    }
}

proof fn lemma_ascending_unique<T>(a: Seq<T>, b: Seq<T>, key: spec_fn(T) -> int)
    requires
        ascending(a, key),
        ascending(b, key),
        distinct_keys(a, key),
        a.to_multiset() == b.to_multiset(),
    ensures
        a == b,
    decreases a.len(),
{
    broadcast use vstd::seq_lib::group_to_multiset_ensures;

    assert(a.len() == a.to_multiset().len() && b.len() == b.to_multiset().len());
    if a.len() > 0 {
        let x = a.last();
        let y = b.last();
        assert(a.contains(x) && b.contains(y));
        assert(b.to_multiset().count(x) > 0);
        assert(a.to_multiset().count(y) > 0);
        let i = choose|i: int| 0 <= i < b.len() && b[i] == x;
        let j = choose|j: int| 0 <= j < a.len() && a[j] == y;
        assert(key(x) <= key(y)) by {
            if i < b.len() - 1 {
                assert(key(b[i]) <= key(b[b.len() - 1]));
            }
        }
        if j < a.len() - 1 {
            assert(key(a[j]) <= key(a[a.len() - 1]));
            assert(key(a[j]) != key(a[a.len() - 1]));
        }
        assert(x == y);
        let short_a = a.drop_last();
        let short_b = b.drop_last();
        assert(a =~= short_a.push(x));
        assert(b =~= short_b.push(y));
        assert(short_a.to_multiset() =~= a.to_multiset().remove(x));
        assert(short_b.to_multiset() =~= b.to_multiset().remove(y));
        assert forall|p: int, q: int| 0 <= p < q < short_a.len() implies key(
            #[trigger] short_a[p],
        ) <= key(#[trigger] short_a[q]) by {
            assert(key(a[p]) <= key(a[q]));
        }
        assert forall|p: int, q: int| 0 <= p < q < short_b.len() implies key(
            #[trigger] short_b[p],
        ) <= key(#[trigger] short_b[q]) by {
            assert(key(b[p]) <= key(b[q]));
        }
        assert forall|p: int, q: int| 0 <= p < q < short_a.len() implies key(
            #[trigger] short_a[p],
        ) != key(#[trigger] short_a[q]) by {
            assert(key(a[p]) != key(a[q]));
        }
        lemma_ascending_unique(short_a, short_b, key);
    } else {
        assert(a =~= b);
    }
}

/// The order in which items are given does not matter where no two have the same key.
pub proof fn lemma_sorting_forgets_the_order<T>(a: Seq<T>, b: Seq<T>, key: spec_fn(T) -> int)
    requires
        distinct_keys(a, key),
        a.to_multiset() == b.to_multiset(),
    ensures
        sorted_by_key(a, key) == sorted_by_key(b, key),
{
    lemma_sorted_items(a, key);
    lemma_sorted_items(b, key);
    lemma_sorted_ascending(a, key);
    lemma_sorted_ascending(b, key);
    lemma_sorted_distinct(a, key);
    lemma_ascending_unique(sorted_by_key(a, key), sorted_by_key(b, key), key);
}

proof fn lemma_placed_distinct<T>(items: Seq<T>, item: T, key: spec_fn(T) -> int)
    requires
        distinct_keys(items, key),
        forall|i: int| 0 <= i < items.len() ==> key(#[trigger] items[i]) != key(item),
    ensures
        distinct_keys(placed_by(items, item, key), key),
    decreases items.len(),
{
    let out = placed_by(items, item, key);
    if items.len() > 0 && key(item) < key(items.last()) {
        let short = items.drop_last();
        let inner = placed_by(short, item, key);
        assert forall|i: int, j: int| 0 <= i < j < short.len() implies key(#[trigger] short[i])
            != key(#[trigger] short[j]) by {
            assert(key(items[i]) != key(items[j]));
        }
        assert forall|i: int| 0 <= i < short.len() implies key(#[trigger] short[i]) != key(
            item,
        ) by {
            assert(key(items[i]) != key(item));
        }
        lemma_placed_distinct(short, item, key);
        lemma_placed_items(short, item, key);
        assert forall|i: int, j: int| 0 <= i < j < out.len() implies key(#[trigger] out[i]) != key(
            #[trigger] out[j],
        ) by {
            if j == out.len() - 1 {
                broadcast use vstd::seq_lib::group_to_multiset_ensures;

                assert(out[i] == inner[i]);
                assert(inner.contains(inner[i]));
                assert(inner.to_multiset().count(inner[i]) > 0);
                if inner[i] != item {
                    assert(short.to_multiset().count(inner[i]) > 0);
                    assert(short.contains(inner[i]));
                    let k = choose|k: int| 0 <= k < short.len() && short[k] == inner[i];
                    assert(items[k] == inner[i]);
                    assert(key(items[k]) != key(items[items.len() - 1]));
                }
            } else {
                assert(out[i] == inner[i] && out[j] == inner[j]);
            }
        }
    } else {
        assert forall|i: int, j: int| 0 <= i < j < out.len() implies key(#[trigger] out[i]) != key(
            #[trigger] out[j],
        ) by {
            assert(out[i] == items[i]);
            if j < items.len() {
                assert(out[j] == items[j]);
            }
        }
    }
}

proof fn lemma_sorted_distinct<T>(items: Seq<T>, key: spec_fn(T) -> int)
    requires
        distinct_keys(items, key),
    ensures
        distinct_keys(sorted_by_key(items, key), key),
    decreases items.len(),
{
    broadcast use vstd::seq_lib::group_to_multiset_ensures;

    if items.len() > 0 {
        let short = items.drop_last();
        let sorted = sorted_by_key(short, key);
        assert forall|i: int, j: int| 0 <= i < j < short.len() implies key(#[trigger] short[i])
            != key(#[trigger] short[j]) by {
            assert(key(items[i]) != key(items[j]));
        }
        lemma_sorted_distinct(short, key);
        lemma_sorted_items(short, key);
        assert forall|i: int| 0 <= i < sorted.len() implies key(#[trigger] sorted[i]) != key(
            items.last(),
        ) by {
            assert(sorted.contains(sorted[i]));
            assert(sorted.to_multiset().count(sorted[i]) > 0);
            assert(short.to_multiset().count(sorted[i]) > 0);
            assert(short.contains(sorted[i]));
            let k = choose|k: int| 0 <= k < short.len() && short[k] == sorted[i];
            assert(items[k] == sorted[i]);
            assert(key(items[k]) != key(items[items.len() - 1]));
        }
        lemma_placed_distinct(sorted, items.last(), key);
    }
}

/// The positions of the items in the order of their keys. `keys` are the keys of the
/// items.
pub(crate) fn sorted_positions<T>(
    items: &Vec<T>,
    keys: &Vec<u64>,
    Ghost(key): Ghost<spec_fn(T) -> int>,
) -> (r: Vec<usize>)
    requires
        keys@.len() == items@.len(),
        forall|i: int| 0 <= i < items@.len() ==> keys@[i] == key(#[trigger] items@[i]),
    ensures
        r@.len() == items@.len(),
        forall|i: int| 0 <= i < r@.len() ==> (#[trigger] r@[i]) < items@.len(),
        forall|i: int|
            0 <= i < r@.len() ==> items@[(#[trigger] r@[i]) as int] == sorted_by_key(items@, key)[i],
        sorted_by_key(items@, key).len() == items@.len(),
{
    let mut out: Vec<usize> = Vec::new();
    let mut n: usize = 0;
    while n < items.len()
        invariant
            keys@.len() == items@.len(),
            forall|i: int| 0 <= i < items@.len() ==> keys@[i] == key(#[trigger] items@[i]),
            n <= items@.len(),
            out@.len() == n,
            sorted_by_key(items@.take(n as int), key).len() == n,
            forall|i: int| 0 <= i < n ==> (#[trigger] out@[i]) < n,
            forall|i: int|
                0 <= i < n ==> items@[(#[trigger] out@[i]) as int] == sorted_by_key(
                    items@.take(n as int),
                    key,
                )[i],
        decreases items@.len() - n,
    {
        let ghost sorted = sorted_by_key(items@.take(n as int), key);
        let mut p: usize = n;
        while p > 0 && keys[n] < keys[out[p - 1]]
            invariant
                keys@.len() == items@.len(),
                forall|i: int| 0 <= i < items@.len() ==> keys@[i] == key(#[trigger] items@[i]),
                n < items@.len(),
                p <= n,
                out@.len() == n,
                sorted.len() == n,
                forall|i: int| 0 <= i < n ==> (#[trigger] out@[i]) < n,
                forall|i: int| 0 <= i < n ==> items@[(#[trigger] out@[i]) as int] == sorted[i],
                forall|i: int| p <= i < n ==> key(items@[n as int]) < key(#[trigger] sorted[i]),
            decreases p,
        {
            assert(key(sorted[p - 1]) == keys@[out@[p - 1] as int]);
            p -= 1;
        }
        proof {
            if p > 0 {
                assert(key(sorted[p - 1]) == keys@[out@[p - 1] as int]);
            }
            lemma_placed_at(sorted, items@[n as int], key, p as int);
            assert(items@.take(n + 1).drop_last() =~= items@.take(n as int));
            assert(sorted_by_key(items@.take(n + 1), key) == sorted.insert(p as int, items@[n as int]));
        }
        let ghost before = out@;
        out.insert(p, n);
        n += 1;
        proof {
            assert forall|i: int| 0 <= i < n implies (#[trigger] out@[i]) < n && items@[out@[i] as int]
                == sorted_by_key(items@.take(n as int), key)[i] by {
                if i < p {
                    assert(out@[i] == before[i]);
                } else if i > p {
                    assert(out@[i] == before[i - 1]);
                }
            }
        }
    }
    assert(items@.take(n as int) =~= items@);
    out
}

/// Placing an item and taking views give the same in either order.
proof fn lemma_placed_views<T, U>(
    items: Seq<T>,
    item: T,
    key: spec_fn(T) -> int,
    view: spec_fn(T) -> U,
    view_key: spec_fn(U) -> int,
)
    requires
        forall|x: T| view_key(#[trigger] view(x)) == key(x),
    ensures
        placed_by(items, item, key).map_values(view) == placed_by(
            items.map_values(view),
            view(item),
            view_key,
        ),
    decreases items.len(),
{
    let views = items.map_values(view);
    if items.len() > 0 && key(item) < key(items.last()) {
        assert(views.last() == view(items.last()));
        assert(views.drop_last() =~= items.drop_last().map_values(view));
        lemma_placed_views(items.drop_last(), item, key, view, view_key);
        assert(placed_by(items, item, key).map_values(view) =~= placed_by(
            items.drop_last(),
            item,
            key,
        ).map_values(view).push(view(items.last())));
    } else {
        if items.len() > 0 {
            assert(views.last() == view(items.last()));
        }
        assert(items.push(item).map_values(view) =~= views.push(view(item)));
    }
}

/// Sorting and taking views give the same in either order.
pub proof fn lemma_sorted_views<T, U>(
    items: Seq<T>,
    key: spec_fn(T) -> int,
    view: spec_fn(T) -> U,
    view_key: spec_fn(U) -> int,
)
    requires
        forall|x: T| view_key(#[trigger] view(x)) == key(x),
    ensures
        sorted_by_key(items, key).map_values(view) == sorted_by_key(
            items.map_values(view),
            view_key,
        ),
    decreases items.len(),
{
    let views = items.map_values(view);
    if items.len() == 0 {
        assert(sorted_by_key(items, key).map_values(view) =~= sorted_by_key(views, view_key));
    } else {
        assert(views.drop_last() =~= items.drop_last().map_values(view));
        lemma_sorted_views(items.drop_last(), key, view, view_key);
        lemma_placed_views(
            sorted_by_key(items.drop_last(), key),
            items.last(),
            key,
            view,
            view_key,
        );
    }
}

/// Items with the same key stay in their order: an item whose key is no smaller than those
/// before it stands behind all of them.
pub proof fn law_equal_items_keep_their_order<T>(items: Seq<T>, item: T, key: spec_fn(T) -> int)
    requires
        forall|i: int|
            0 <= i < sorted_by_key(items, key).len() ==> key(#[trigger] sorted_by_key(items, key)[i])
                <= key(item),
    ensures
        sorted_by_key(items.push(item), key) == sorted_by_key(items, key).push(item),
        sorted_by_key(Seq::<T>::empty(), key) == Seq::<T>::empty(),
{
    assert(items.push(item).drop_last() =~= items);
}

} // verus!
