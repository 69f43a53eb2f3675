//! Stable ordering by key: the specification of a stable sort as repeated
//! insertion, and its laws.
use vstd::prelude::*;

verus! {

/// `x` placed after the last element of `s`, scanning from the end, whose key
/// is at most its own.
pub open spec fn insert_by_key<T>(s: Seq<T>, x: T, k: spec_fn(T) -> int) -> Seq<T>
    decreases s.len(),
{
    if s.len() == 0 || k(s.last()) <= k(x) {
        s.push(x)
    } else {
        insert_by_key(s.drop_last(), x, k).push(s.last())
    }
}

/// `s` sorted by `k`, stably: elements with equal keys keep their order.
pub open spec fn sort_by_key<T>(s: Seq<T>, k: spec_fn(T) -> int) -> Seq<T>
    decreases s.len(),
{
    if s.len() == 0 {
        s
    } else {
        insert_by_key(sort_by_key(s.drop_last(), k), s.last(), k)
    }
}

/// `s` is in ascending order of `k`.
pub open spec fn sorted_by<T>(s: Seq<T>, k: spec_fn(T) -> int) -> bool {
    forall|i: int, j: int| 0 <= i <= j < s.len() ==> k(s[i]) <= k(s[j])
}

/// Inserting after the run of larger keys at the end is inserting at its start.
pub proof fn lemma_insert_at<T>(s: Seq<T>, x: T, k: spec_fn(T) -> int, j: int)
    requires
        0 <= j <= s.len(),
        forall|i: int| j <= i < s.len() ==> k(#[trigger] s[i]) > k(x),
        j == 0 || k(s[j - 1]) <= k(x),
    ensures
        insert_by_key(s, x, k) == s.insert(j, x),
    decreases s.len(),
{
    if j == s.len() {
        assert(s.insert(j, x) =~= s.push(x));
    } else {
        let t = s.drop_last();
        assert forall|i: int| j <= i < t.len() implies k(#[trigger] t[i]) > k(x) by {
            assert(t[i] == s[i]);
        }
        lemma_insert_at(t, x, k, j);
        assert(s.insert(j, x) =~= t.insert(j, x).push(s.last()));
    }
}

/// Inserting keeps the elements: the multiset grows by `x`.
pub proof fn lemma_insert_multiset<T>(s: Seq<T>, x: T, k: spec_fn(T) -> int)
    ensures
        insert_by_key(s, x, k).to_multiset() == s.to_multiset().insert(x),
        insert_by_key(s, x, k).len() == s.len() + 1,
    decreases s.len(),
{
    broadcast use vstd::seq_lib::group_to_multiset_ensures;

    if s.len() == 0 || k(s.last()) <= k(x) {
    } else {
        let t = s.drop_last();
        lemma_insert_multiset(t, x, k);
        assert(s =~= t.push(s.last()));
        assert(insert_by_key(s, x, k).to_multiset() =~= s.to_multiset().insert(x));
    }
}

/// Every key of `insert_by_key(s, x, k)` is at most a bound of those of `s`
/// and `x`.
pub proof fn lemma_insert_bounded<T>(s: Seq<T>, x: T, k: spec_fn(T) -> int, b: int)
    requires
        forall|i: int| 0 <= i < s.len() ==> k(#[trigger] s[i]) <= b,
        k(x) <= b,
    ensures
        forall|i: int| 0 <= i < insert_by_key(s, x, k).len() ==> k(#[trigger] insert_by_key(s, x, k)[i]) <= b,
        insert_by_key(s, x, k).len() == s.len() + 1,
    decreases s.len(),
{
    if s.len() == 0 || k(s.last()) <= k(x) {
    } else {
        let t = s.drop_last();
        assert forall|i: int| 0 <= i < t.len() implies k(#[trigger] t[i]) <= b by {
            assert(t[i] == s[i]);
        }
        lemma_insert_bounded(t, x, k, b);
    }
}

/// Inserting into a sorted sequence keeps it sorted.
pub proof fn lemma_insert_sorted<T>(s: Seq<T>, x: T, k: spec_fn(T) -> int)
    requires
        sorted_by(s, k),
    ensures
        sorted_by(insert_by_key(s, x, k), k),
    decreases s.len(),
{
    if s.len() == 0 || k(s.last()) <= k(x) {
        let r = s.push(x);
        assert forall|i: int, j: int| 0 <= i <= j < r.len() implies k(r[i]) <= k(r[j]) by {
            if j == s.len() && i < s.len() {
                assert(k(s[i]) <= k(s.last()));
            }
        }
    } else {
        let t = s.drop_last();
        assert(sorted_by(t, k));
        lemma_insert_sorted(t, x, k);
        assert forall|i: int| 0 <= i < t.len() implies k(#[trigger] t[i]) <= k(s.last()) by {
            assert(t[i] == s[i]);
        }
        lemma_insert_bounded(t, x, k, k(s.last()));
        let r0 = insert_by_key(t, x, k);
        let r = r0.push(s.last());
        assert forall|i: int, j: int| 0 <= i <= j < r.len() implies k(r[i]) <= k(r[j]) by {
            if j == r0.len() {
                if i < r0.len() {
                    assert(k(r0[i]) <= k(s.last()));
                }
            }
        }
    }
}

/// A stable sort orders by key and keeps exactly the elements it was given.
pub proof fn lemma_sort_by_key<T>(s: Seq<T>, k: spec_fn(T) -> int)
    ensures
        sorted_by(sort_by_key(s, k), k),
        sort_by_key(s, k).to_multiset() == s.to_multiset(),
        sort_by_key(s, k).len() == s.len(),
    decreases s.len(),
{
    broadcast use vstd::seq_lib::group_to_multiset_ensures;

    if s.len() > 0 {
        let t = s.drop_last();
        lemma_sort_by_key(t, k);
        lemma_insert_sorted(sort_by_key(t, k), s.last(), k);
        lemma_insert_multiset(sort_by_key(t, k), s.last(), k);
        assert(s =~= t.push(s.last()));
    }
}

} // verus!
