//! Stable insertion sort, defined as a function on sequences, with its
//! permutation and ordering laws.

use vstd::prelude::*;
use vstd::multiset::Multiset;

verus! {

/// The position at which `x` goes among `t`: before the first element that
/// does not come at or before `x`.
pub open spec fn insert_pos<T>(t: Seq<T>, x: T, le: spec_fn(T, T) -> bool) -> int
    decreases t.len(),
{
    if t.len() == 0 {
        0
    } else if !le(t[0], x) {
        0
    } else {
        1 + insert_pos(t.drop_first(), x, le)
    }
}

/// `t` with `x` inserted after every element that comes at or before it.
pub open spec fn insert_sorted<T>(t: Seq<T>, x: T, le: spec_fn(T, T) -> bool) -> Seq<T> {
    t.insert(insert_pos(t, x, le), x)
}

/// The stable sort of `s` by `le`: each element in turn inserted after the
/// earlier elements that come at or before it.
pub open spec fn stable_sort<T>(s: Seq<T>, le: spec_fn(T, T) -> bool) -> Seq<T>
    decreases s.len(),
{
    if s.len() == 0 {
        s
    } else {
        insert_sorted(stable_sort(s.drop_last(), le), s.last(), le)
    }
}

/// `le` is a total preorder.
pub open spec fn total_preorder<T>(le: spec_fn(T, T) -> bool) -> bool {
    &&& forall|a: T, b: T| #[trigger] le(a, b) || le(b, a)
    &&& forall|a: T, b: T, c: T| #[trigger] le(a, b) && #[trigger] le(b, c) ==> le(a, c)
}

/// `t` is in order.
pub open spec fn sorted_by<T>(t: Seq<T>, le: spec_fn(T, T) -> bool) -> bool {
    forall|i: int, j: int| 0 <= i < j < t.len() ==> le(#[trigger] t[i], #[trigger] t[j])
}

proof fn lemma_insert_pos_bounds<T>(t: Seq<T>, x: T, le: spec_fn(T, T) -> bool)
    ensures
        0 <= insert_pos(t, x, le) <= t.len(),
        forall|k: int| 0 <= k < insert_pos(t, x, le) ==> le(#[trigger] t[k], x),
        insert_pos(t, x, le) < t.len() ==> !le(t[insert_pos(t, x, le)], x),
    decreases t.len(),
{
    if t.len() > 0 && le(t[0], x) {
        lemma_insert_pos_bounds(t.drop_first(), x, le);
        assert forall|k: int| 0 <= k < insert_pos(t, x, le) implies le(#[trigger] t[k], x) by {
            if k > 0 {
                assert(t[k] == t.drop_first()[k - 1]);
            }
        }
    }
}

proof fn lemma_insert_sorted_sorted<T>(t: Seq<T>, x: T, le: spec_fn(T, T) -> bool)
    requires
        total_preorder(le),
        sorted_by(t, le),
    ensures
        sorted_by(insert_sorted(t, x, le), le),
{
    lemma_insert_pos_bounds(t, x, le);
    let p = insert_pos(t, x, le);
    let r = insert_sorted(t, x, le);
    assert forall|i: int, j: int| 0 <= i < j < r.len() implies le(#[trigger] r[i], #[trigger] r[j]) by {
        if j < p {
            assert(r[i] == t[i] && r[j] == t[j]);
        } else if j == p {
            assert(r[i] == t[i]);
        } else if i == p {
            assert(r[j] == t[j - 1]);
            assert(!le(t[p], x));
            assert(le(x, t[p]));
            if j - 1 > p {
                assert(le(t[p], t[j - 1]));
            }
        } else if i < p {
            assert(r[i] == t[i] && r[j] == t[j - 1]);
        } else {
            assert(r[i] == t[i - 1] && r[j] == t[j - 1]);
        }
    }
}

/// A stable sort by a total preorder is in order.
pub proof fn lemma_stable_sort_sorted<T>(s: Seq<T>, le: spec_fn(T, T) -> bool)
    requires
        total_preorder(le),
    ensures
        sorted_by(stable_sort(s, le), le),
    decreases s.len(),
{
    if s.len() > 0 {
        lemma_stable_sort_sorted(s.drop_last(), le);
        lemma_insert_sorted_sorted(stable_sort(s.drop_last(), le), s.last(), le);
    }
}

/// A stable sort keeps every element, as often as it occurs.
pub proof fn lemma_stable_sort_permutation<T>(s: Seq<T>, le: spec_fn(T, T) -> bool)
    ensures
        stable_sort(s, le).to_multiset() == s.to_multiset(),
        stable_sort(s, le).len() == s.len(),
    decreases s.len(),
{
    broadcast use vstd::seq_lib::group_to_multiset_ensures;
    if s.len() > 0 {
        let prev = stable_sort(s.drop_last(), le);
        lemma_stable_sort_permutation(s.drop_last(), le);
        lemma_insert_pos_bounds(prev, s.last(), le);
        let p = insert_pos(prev, s.last(), le);
        vstd::seq_lib::to_multiset_insert(prev, p, s.last());
        vstd::seq_lib::to_multiset_build(s.drop_last(), s.last());
        assert(s =~= s.drop_last().push(s.last()));
    }
}

} // verus!
