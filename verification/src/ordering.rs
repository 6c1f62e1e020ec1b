//! Stable insertion sorting, the order in which listings are returned.

use vstd::prelude::*;

verus! {

/// Inserting into an ordered sequence: the element goes after every element
/// that `keep_before` keeps ahead of it, and before the first one that it does not.
pub open spec fn insert_ordered<T>(s: Seq<T>, x: T, keep_before: spec_fn(T, T) -> bool) -> Seq<T>
    decreases s.len(),
{
    if s.len() == 0 {
        seq![x]
    } else if keep_before(s[0], x) {
        seq![s[0]] + insert_ordered(s.drop_first(), x, keep_before)
    } else {
        seq![x] + s
    }
}

/// The stable sort of a sequence: its elements inserted one by one, in order.
/// Elements that `keep_before` ranks alike keep their original order.
pub open spec fn sort_ordered<T>(s: Seq<T>, keep_before: spec_fn(T, T) -> bool) -> Seq<T>
    decreases s.len(),
{
    if s.len() == 0 {
        Seq::empty()
    } else {
        insert_ordered(sort_ordered(s.drop_last(), keep_before), s.last(), keep_before)
    }
}

/// `keep_before` is a total preorder.
pub open spec fn total_preorder<T>(keep_before: spec_fn(T, T) -> bool) -> bool {
    &&& forall|a: T, b: T| #[trigger] keep_before(a, b) || keep_before(b, a)
    &&& forall|a: T, b: T, c: T|
        #[trigger] keep_before(a, b) && #[trigger] keep_before(b, c) ==> keep_before(a, c)
}

pub open spec fn is_ordered<T>(s: Seq<T>, keep_before: spec_fn(T, T) -> bool) -> bool {
    forall|i: int, j: int| 0 <= i < j < s.len() ==> keep_before(#[trigger] s[i], #[trigger] s[j])
}

/// Insertion at the first position whose element is not kept ahead.
pub proof fn lemma_insert_ordered_at<T>(s: Seq<T>, x: T, keep_before: spec_fn(T, T) -> bool, p: int)
    requires
        0 <= p <= s.len(),
        forall|k: int| 0 <= k < p ==> keep_before(#[trigger] s[k], x),
        p < s.len() ==> !keep_before(s[p], x),
    ensures
        insert_ordered(s, x, keep_before) == s.insert(p, x),
    decreases p,
{
    if p == 0 {
        if s.len() == 0 {
            assert(s.insert(p, x) =~= seq![x]);
        } else {
            assert(s.insert(p, x) =~= seq![x] + s);
        }
    } else {
        let rest = s.drop_first();
        assert forall|k: int| 0 <= k < p - 1 implies keep_before(#[trigger] rest[k], x) by {
            assert(rest[k] == s[k + 1]);
        }
        lemma_insert_ordered_at(rest, x, keep_before, p - 1);
        assert(seq![s[0]] + rest.insert(p - 1, x) =~= s.insert(p, x));
    }
}

/// The position at which `insert_ordered` puts an element.
pub proof fn lemma_insert_position<T>(s: Seq<T>, x: T, keep_before: spec_fn(T, T) -> bool) -> (p: int)
    ensures
        0 <= p <= s.len(),
        forall|k: int| 0 <= k < p ==> keep_before(#[trigger] s[k], x),
        p < s.len() ==> !keep_before(s[p], x),
        insert_ordered(s, x, keep_before) == s.insert(p, x),
    decreases s.len(),
{
    if s.len() == 0 || !keep_before(s[0], x) {
        lemma_insert_ordered_at(s, x, keep_before, 0);
        0
    } else {
        let rest = s.drop_first();
        let q = lemma_insert_position(rest, x, keep_before);
        assert forall|k: int| 0 <= k < q + 1 implies keep_before(#[trigger] s[k], x) by {
            if k > 0 {
                assert(s[k] == rest[k - 1]);
            }
        }
        if q + 1 < s.len() {
            assert(s[q + 1] == rest[q]);
        }
        lemma_insert_ordered_at(s, x, keep_before, q + 1);
        q + 1
    }
}

/// Insertion keeps the elements and keeps the sequence ordered.
pub proof fn lemma_insert_ordered<T>(s: Seq<T>, x: T, keep_before: spec_fn(T, T) -> bool)
    requires
        total_preorder(keep_before),
        is_ordered(s, keep_before),
    ensures
        is_ordered(insert_ordered(s, x, keep_before), keep_before),
        insert_ordered(s, x, keep_before).to_multiset() == s.to_multiset().insert(x),
{
    broadcast use vstd::seq_lib::group_to_multiset_ensures;

    let p = lemma_insert_position(s, x, keep_before);
    let out = s.insert(p, x);
    assert forall|i: int, j: int| 0 <= i < j < out.len() implies keep_before(
        #[trigger] out[i],
        #[trigger] out[j],
    ) by {
        if i < p && j < p {
            assert(out[i] == s[i] && out[j] == s[j]);
        } else if i < p && j == p {
            assert(out[i] == s[i]);
        } else if i < p {
            assert(out[i] == s[i] && out[j] == s[j - 1]);
        } else if i == p {
            assert(out[j] == s[j - 1]);
            assert(keep_before(s[p], s[j - 1]) || p == j - 1);
            assert(keep_before(x, s[p]));
        } else {
            assert(out[i] == s[i - 1] && out[j] == s[j - 1]);
        }
    }
}

/// The stable sort keeps the elements and orders them.
pub proof fn lemma_sort_ordered<T>(s: Seq<T>, keep_before: spec_fn(T, T) -> bool)
    requires
        total_preorder(keep_before),
    ensures
        is_ordered(sort_ordered(s, keep_before), keep_before),
        sort_ordered(s, keep_before).to_multiset() == s.to_multiset(),
        sort_ordered(s, keep_before).len() == s.len(),
    decreases s.len(),
{
    broadcast use vstd::seq_lib::group_to_multiset_ensures;

    if s.len() == 0 {
        assert(sort_ordered(s, keep_before) =~= s);
    } else {
        let init = s.drop_last();
        lemma_sort_ordered(init, keep_before);
        lemma_insert_ordered(sort_ordered(init, keep_before), s.last(), keep_before);
        assert(init.push(s.last()) =~= s);
        assert(sort_ordered(s, keep_before).len() == sort_ordered(s, keep_before).to_multiset().len());
    }
}

} // verus!
