//! Stable sorting by an integer key, as insertion: the meaning of the
//! `sort_by` calls of the cache index, with its laws (the result is sorted,
//! holds the same items, and items of equal key keep their order).
use vstd::prelude::*;

verus! {

/// `t` with `x` placed after the last item whose key is not above `x`'s
/// (scanning from the back): a sorted sequence stays sorted and items of
/// equal key keep their order.
pub open spec fn insert_by<T>(t: Seq<T>, x: T, key: spec_fn(T) -> int) -> Seq<T>
    decreases t.len(),
{
    if t.len() == 0 {
        seq![x]
    } else if key(t.last()) <= key(x) {
        t.push(x)
    } else {
        insert_by(t.drop_last(), x, key).push(t.last())
    }
}

/// Stable sort by `key`: each item inserted in turn.
pub open spec fn sort_by_key<T>(t: Seq<T>, key: spec_fn(T) -> int) -> Seq<T>
    decreases t.len(),
{
    if t.len() == 0 {
        t
    } else {
        insert_by(sort_by_key(t.drop_last(), key), t.last(), key)
    }
}

/// Whether the keys ascend.
pub open spec fn sorted_by<T>(t: Seq<T>, key: spec_fn(T) -> int) -> bool {
    forall|i: int, j: int| 0 <= i <= j < t.len() ==> key(t[i]) <= key(t[j])
}

/// Where `insert_by` places `x`: after the items not above it, before the
/// run of items above it at the end.
pub proof fn lemma_insert_at<T>(t: Seq<T>, x: T, key: spec_fn(T) -> int, j: int)
    requires
        0 <= j <= t.len(),
        j == 0 || key(t[j - 1]) <= key(x),
        forall|k: int| j <= k < t.len() ==> key(x) < key(#[trigger] t[k]),
    ensures
        insert_by(t, x, key) == t.insert(j, x),
    decreases t.len(),
{
    if t.len() == 0 {
        assert(t.insert(j, x) =~= seq![x]);
    } else if j == t.len() {
        assert(t.insert(j, x) =~= t.push(x));
    } else {
        let d = t.drop_last();
        lemma_insert_at(d, x, key, j);
        assert(d.insert(j, x).push(t.last()) =~= t.insert(j, x));
    }
}

proof fn lemma_insert_bounded<T>(t: Seq<T>, x: T, key: spec_fn(T) -> int, b: int)
    requires
        forall|i: int| 0 <= i < t.len() ==> key(#[trigger] t[i]) <= b,
        key(x) <= b,
    ensures
        insert_by(t, x, key).len() == t.len() + 1,
        forall|i: int|
            0 <= i < insert_by(t, x, key).len() ==> key(#[trigger] insert_by(t, x, key)[i]) <= b,
    decreases t.len(),
{
    if t.len() > 0 && key(t.last()) > key(x) {
        lemma_insert_bounded(t.drop_last(), x, key, b);
    }
}

proof fn lemma_insert_sorted<T>(t: Seq<T>, x: T, key: spec_fn(T) -> int)
    requires
        sorted_by(t, key),
    ensures
        sorted_by(insert_by(t, x, key), key),
        insert_by(t, x, key).len() == t.len() + 1,
    decreases t.len(),
{
    if t.len() > 0 && key(t.last()) > key(x) {
        let d = t.drop_last();
        lemma_insert_sorted(d, x, key);
        lemma_insert_bounded(d, x, key, key(t.last()));
    }
}

proof fn lemma_insert_multiset<T>(t: Seq<T>, x: T, key: spec_fn(T) -> int)
    ensures
        insert_by(t, x, key).to_multiset() =~= t.to_multiset().insert(x),
    decreases t.len(),
{
    broadcast use vstd::seq_lib::to_multiset_build;
    broadcast use vstd::multiset::group_multiset_axioms;

    if t.len() == 0 {
        assert(seq![x] =~= t.push(x));
    } else if key(t.last()) > key(x) {
        let d = t.drop_last();
        lemma_insert_multiset(d, x, key);
        assert(d.push(t.last()) =~= t);
    }
}

/// The sort yields ascending keys and the same items.
pub proof fn lemma_sort_by_key<T>(t: Seq<T>, key: spec_fn(T) -> int)
    ensures
        sorted_by(sort_by_key(t, key), key),
        sort_by_key(t, key).to_multiset() =~= t.to_multiset(),
        sort_by_key(t, key).len() == t.len(),
    decreases t.len(),
{
    broadcast use vstd::seq_lib::to_multiset_build;
    broadcast use vstd::multiset::group_multiset_axioms;

    if t.len() > 0 {
        let d = t.drop_last();
        lemma_sort_by_key(d, key);
        lemma_insert_sorted(sort_by_key(d, key), t.last(), key);
        lemma_insert_multiset(sort_by_key(d, key), t.last(), key);
        assert(d.push(t.last()) =~= t);
    }
}

/// Whether an item has key `k`.
pub open spec fn has_key<T>(key: spec_fn(T) -> int, k: int) -> spec_fn(T) -> bool {
    |x: T| key(x) == k
}

proof fn lemma_filter_push<T>(a: Seq<T>, b: T, p: spec_fn(T) -> bool)
    ensures
        a.push(b).filter(p) == if p(b) {
            a.filter(p).push(b)
        } else {
            a.filter(p)
        },
{
    reveal(Seq::filter);
    assert(a.push(b).drop_last() =~= a);
}

proof fn lemma_insert_stable<T>(t: Seq<T>, x: T, key: spec_fn(T) -> int, k: int)
    ensures
        insert_by(t, x, key).filter(has_key(key, k)) == if key(x) == k {
            t.filter(has_key(key, k)).push(x)
        } else {
            t.filter(has_key(key, k))
        },
    decreases t.len(),
{
    let p = has_key(key, k);
    if t.len() == 0 {
        assert(seq![x] =~= t.push(x));
        lemma_filter_push(t, x, p);
    } else if key(t.last()) <= key(x) {
        lemma_filter_push(t, x, p);
    } else {
        let d = t.drop_last();
        lemma_insert_stable(d, x, key, k);
        lemma_filter_push(insert_by(d, x, key), t.last(), p);
        lemma_filter_push(d, t.last(), p);
        assert(d.push(t.last()) =~= t);
    }
}

/// The sort is stable: the items of any one key come out in the order they
/// came in.
pub proof fn lemma_sort_stable<T>(t: Seq<T>, key: spec_fn(T) -> int, k: int)
    ensures
        sort_by_key(t, key).filter(has_key(key, k)) == t.filter(has_key(key, k)),
    decreases t.len(),
{
    if t.len() > 0 {
        let d = t.drop_last();
        lemma_sort_stable(d, key, k);
        lemma_insert_stable(sort_by_key(d, key), t.last(), key, k);
        lemma_filter_push(d, t.last(), has_key(key, k));
        assert(d.push(t.last()) =~= t);
    }
}

/// A sequence already sorted comes out of the sort unchanged.
pub proof fn lemma_sort_sorted_is_identity<T>(t: Seq<T>, key: spec_fn(T) -> int)
    requires
        sorted_by(t, key),
    ensures
        sort_by_key(t, key) == t,
    decreases t.len(),
{
    if t.len() > 0 {
        let d = t.drop_last();
        assert(sorted_by(d, key));
        lemma_sort_sorted_is_identity(d, key);
        assert(d.push(t.last()) =~= t);
    }
}

} // verus!
