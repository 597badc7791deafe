//! Identifiers in collections: what it means that they are in order and
//! unused elsewhere, and how the ways in which a collection changes keep it
//! so.

use vstd::prelude::*;

verus! {

/// The keys of the items rise strictly along the sequence, so no two items
/// share a key.
pub open spec fn ascending<T>(s: Seq<T>, key: spec_fn(T) -> u64) -> bool {
    forall|i: int, j: int| 0 <= i < j < s.len() ==> key(#[trigger] s[i]) < key(#[trigger] s[j])
}

/// Every key lies below `bound`.
pub open spec fn all_below<T>(s: Seq<T>, key: spec_fn(T) -> u64, bound: u64) -> bool {
    forall|i: int| 0 <= i < s.len() ==> key(#[trigger] s[i]) < bound
}

/// Some item carries the key `k`.
pub open spec fn has_key<T>(s: Seq<T>, key: spec_fn(T) -> u64, k: u64) -> bool {
    exists|i: int| 0 <= i < s.len() && key(#[trigger] s[i]) == k
}

/// Every key of `post` is a key of `pre`, or a new one from `lo` up to but
/// not including `hi`.
pub open spec fn drawn_from<T>(
    post: Seq<T>,
    pre: Seq<T>,
    key: spec_fn(T) -> u64,
    lo: u64,
    hi: u64,
) -> bool {
    forall|j: int|
        0 <= j < post.len() ==> has_key(pre, key, key(#[trigger] post[j])) || lo <= key(post[j])
            < hi
}

/// One of the first `n` items carries the key `k`.
pub open spec fn has_key_before<T>(s: Seq<T>, key: spec_fn(T) -> u64, k: u64, n: int) -> bool {
    exists|i: int| 0 <= i < n && i < s.len() && key(#[trigger] s[i]) == k
}

/// `post` holds some of the first `n` items of `pre`, in their order, each
/// with the key it had.
pub open spec fn picked_from<T>(post: Seq<T>, pre: Seq<T>, key: spec_fn(T) -> u64, n: int) -> bool {
    &&& ascending(post, key)
    &&& forall|j: int| 0 <= j < post.len() ==> has_key_before(pre, key, key(#[trigger] post[j]), n)
}

/// Nothing is picked from no items.
pub proof fn lemma_picked_none<T>(pre: Seq<T>, key: spec_fn(T) -> u64)
    ensures
        picked_from(Seq::<T>::empty(), pre, key, 0),
{
}

/// What was picked from the first `n - 1` items is picked from the first
/// `n`, and stays so when an item with the key of the item at `n - 1` is
/// added.
pub proof fn lemma_picked_next<T>(post: Seq<T>, pre: Seq<T>, key: spec_fn(T) -> u64, n: int, x: T)
    requires
        ascending(pre, key),
        1 <= n <= pre.len(),
        picked_from(post, pre, key, n - 1),
        key(x) == key(pre[n - 1]),
    ensures
        picked_from(post, pre, key, n),
        picked_from(post.push(x), pre, key, n),
{
    let longer = post.push(x);
    assert forall|j: int| 0 <= j < post.len() implies has_key_before(
        pre,
        key,
        key(#[trigger] post[j]),
        n,
    ) by {
        assert(has_key_before(pre, key, key(post[j]), n - 1));
        let i = choose|i: int| 0 <= i < n - 1 && i < pre.len() && key(#[trigger] pre[i]) == key(post[j]);
        assert(0 <= i < n && key(pre[i]) == key(post[j]));
    }
    assert forall|j: int| 0 <= j < longer.len() implies has_key_before(
        pre,
        key,
        key(#[trigger] longer[j]),
        n,
    ) by {
        if j < post.len() {
            assert(longer[j] == post[j]);
            assert(has_key_before(pre, key, key(post[j]), n));
        } else {
            assert(key(pre[n - 1]) == key(longer[j]));
        }
    }
    assert forall|a: int, b: int| 0 <= a < b < longer.len() implies key(#[trigger] longer[a]) < key(
        #[trigger] longer[b],
    ) by {
        if b < post.len() {
            assert(longer[a] == post[a] && longer[b] == post[b]);
        } else {
            assert(longer[a] == post[a]);
            assert(has_key_before(pre, key, key(post[a]), n - 1));
            let i = choose|i: int|
                0 <= i < n - 1 && i < pre.len() && key(#[trigger] pre[i]) == key(post[a]);
            assert(key(pre[i]) < key(pre[n - 1]));
        }
    }
}

/// What was picked from a collection draws its keys from it.
pub proof fn lemma_picked_is_drawn<T>(
    post: Seq<T>,
    pre: Seq<T>,
    key: spec_fn(T) -> u64,
    n: int,
    lo: u64,
    hi: u64,
)
    requires
        picked_from(post, pre, key, n),
    ensures
        ascending(post, key),
        drawn_from(post, pre, key, lo, hi),
{
    assert forall|j: int| 0 <= j < post.len() implies has_key(pre, key, key(#[trigger] post[j])) by {
        assert(has_key_before(pre, key, key(post[j]), n));
        let i = choose|i: int| 0 <= i < n && i < pre.len() && key(#[trigger] pre[i]) == key(post[j]);
        assert(key(pre[i]) == key(post[j]));
    }
}

/// The items that a filter keeps are picked from the collection.
pub proof fn lemma_filter_picks<T>(s: Seq<T>, pred: spec_fn(T) -> bool, key: spec_fn(T) -> u64)
    requires
        ascending(s, key),
    ensures
        picked_from(s.filter(pred), s, key, s.len() as int),
    decreases s.len(),
{
    reveal(Seq::filter);
    if s.len() > 0 {
        let front = s.drop_last();
        assert forall|i: int, j: int| 0 <= i < j < front.len() implies key(#[trigger] front[i])
            < key(#[trigger] front[j]) by {
            assert(front[i] == s[i] && front[j] == s[j]);
        }
        lemma_filter_picks(front, pred, key);
        let kept = front.filter(pred);
        assert forall|j: int| 0 <= j < kept.len() implies has_key_before(
            s,
            key,
            key(#[trigger] kept[j]),
            s.len() - 1,
        ) by {
            assert(has_key_before(front, key, key(kept[j]), front.len() as int));
            let i = choose|i: int|
                0 <= i < front.len() && i < front.len() && key(#[trigger] front[i]) == key(kept[j]);
            assert(front[i] == s[i]);
            assert(key(s[i]) == key(kept[j]));
        }
        assert(picked_from(kept, s, key, s.len() - 1));
        lemma_picked_next(kept, s, key, s.len() as int, s.last());
    }
}

/// Items that keep their keys, one for one, are picked from the collection.
pub proof fn lemma_same_keys_pick<T>(post: Seq<T>, pre: Seq<T>, key: spec_fn(T) -> u64)
    requires
        ascending(pre, key),
        post.len() == pre.len(),
        forall|i: int| 0 <= i < pre.len() ==> key(#[trigger] post[i]) == key(pre[i]),
    ensures
        picked_from(post, pre, key, pre.len() as int),
{
    assert forall|j: int| 0 <= j < post.len() implies has_key_before(
        pre,
        key,
        key(#[trigger] post[j]),
        pre.len() as int,
    ) by {
        assert(key(pre[j]) == key(post[j]));
    }
    assert forall|a: int, b: int| 0 <= a < b < post.len() implies key(#[trigger] post[a]) < key(
        #[trigger] post[b],
    ) by {
        assert(key(pre[a]) < key(pre[b]));
    }
}

/// What is picked from what was picked is picked from the first.
pub proof fn lemma_picked_twice<T>(c: Seq<T>, b: Seq<T>, a: Seq<T>, key: spec_fn(T) -> u64)
    requires
        picked_from(c, b, key, b.len() as int),
        picked_from(b, a, key, a.len() as int),
    ensures
        picked_from(c, a, key, a.len() as int),
{
    assert forall|j: int| 0 <= j < c.len() implies has_key_before(
        a,
        key,
        key(#[trigger] c[j]),
        a.len() as int,
    ) by {
        assert(has_key_before(b, key, key(c[j]), b.len() as int));
        let m = choose|m: int| 0 <= m < b.len() && m < b.len() && key(#[trigger] b[m]) == key(c[j]);
        assert(has_key_before(a, key, key(b[m]), a.len() as int));
        let i = choose|i: int| 0 <= i < a.len() && i < a.len() && key(#[trigger] a[i]) == key(b[m]);
        assert(key(a[i]) == key(c[j]));
    }
}

/// The items of `fresh` carry the keys from `lo` on, one after the other.
pub open spec fn counted_from<T>(fresh: Seq<T>, key: spec_fn(T) -> u64, lo: u64) -> bool {
    forall|k: int| 0 <= k < fresh.len() ==> key(#[trigger] fresh[k]) == lo + k
}

/// A collection in order, with keys below `lo`, stays in order when items
/// with the keys from `lo` on are added, and draws its keys from what it
/// was and from the new keys.
pub proof fn lemma_append_fresh<T>(
    post: Seq<T>,
    pre: Seq<T>,
    fresh: Seq<T>,
    key: spec_fn(T) -> u64,
    lo: u64,
    hi: u64,
)
    requires
        picked_from(post, pre, key, pre.len() as int),
        all_below(pre, key, lo),
        counted_from(fresh, key, lo),
        lo + fresh.len() <= hi,
    ensures
        ascending(post + fresh, key),
        drawn_from(post + fresh, pre, key, lo, hi),
{
    let all = post + fresh;
    assert forall|j: int| 0 <= j < all.len() implies has_key(pre, key, key(#[trigger] all[j])) || lo
        <= key(all[j]) < hi by {
        if j < post.len() {
            assert(all[j] == post[j]);
            assert(has_key_before(pre, key, key(post[j]), pre.len() as int));
            let i = choose|i: int|
                0 <= i < pre.len() && i < pre.len() && key(#[trigger] pre[i]) == key(post[j]);
            assert(key(pre[i]) == key(all[j]));
        } else {
            assert(all[j] == fresh[j - post.len()]);
        }
    }
    assert forall|a: int, b: int| 0 <= a < b < all.len() implies key(#[trigger] all[a]) < key(
        #[trigger] all[b],
    ) by {
        if b < post.len() {
            assert(all[a] == post[a] && all[b] == post[b]);
        } else if a < post.len() {
            assert(all[a] == post[a]);
            assert(has_key_before(pre, key, key(post[a]), pre.len() as int));
            let i = choose|i: int|
                0 <= i < pre.len() && i < pre.len() && key(#[trigger] pre[i]) == key(post[a]);
            assert(key(pre[i]) < lo);
            assert(all[b] == fresh[b - post.len()]);
        } else {
            assert(all[a] == fresh[a - post.len()]);
            assert(all[b] == fresh[b - post.len()]);
        }
    }
}

} // verus!
