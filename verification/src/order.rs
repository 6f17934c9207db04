//! Stable sorting as a specification: what it means to sort a sequence by an
//! order while rows that tie keep the order in which they were stored.

use vstd::prelude::*;

verus! {

/// Where a new row goes in a sequence that is already in order: just behind
/// the last row that is before or equal to it.
pub open spec fn insert_position<A>(s: Seq<A>, x: A, le: spec_fn(A, A) -> bool) -> int
    decreases s.len(),
{
    if s.len() == 0 {
        0
    } else if le(s.last(), x) {
        s.len() as int
    } else {
        insert_position(s.drop_last(), x, le)
    }
}

/// The rows of `s` in the order of `le`; rows that tie stay in the order in
/// which `s` holds them.
pub open spec fn sort_by<A>(s: Seq<A>, le: spec_fn(A, A) -> bool) -> Seq<A>
    decreases s.len(),
{
    if s.len() == 0 {
        Seq::empty()
    } else {
        let sorted = sort_by(s.drop_last(), le);
        sorted.insert(insert_position(sorted, s.last(), le), s.last())
    }
}

/// Every row is before or equal to every row behind it.
pub open spec fn ordered_by<A>(s: Seq<A>, le: spec_fn(A, A) -> bool) -> bool {
    forall|i: int, j: int| 0 <= i < j < s.len() ==> #[trigger] le(s[i], s[j])
}

/// Of two rows one is before or equal to the other.
pub open spec fn is_total<A>(le: spec_fn(A, A) -> bool) -> bool {
    forall|a: A, b: A| #[trigger] le(a, b) || le(b, a)
}

/// What is before or equal to a row is before or equal to all that the row is
/// before or equal to.
pub open spec fn is_transitive<A>(le: spec_fn(A, A) -> bool) -> bool {
    forall|a: A, b: A, c: A| #[trigger] le(a, b) && #[trigger] le(b, c) ==> le(a, c)
}

/// The insert position lies in the sequence or at its end, no row from it on
/// is before or equal to the new row, and the row in front of it is.
pub proof fn lemma_insert_position<A>(s: Seq<A>, x: A, le: spec_fn(A, A) -> bool)
    ensures
        0 <= insert_position(s, x, le) <= s.len(),
        forall|k: int| insert_position(s, x, le) <= k < s.len() ==> !#[trigger] le(s[k], x),
        insert_position(s, x, le) > 0 ==> le(s[insert_position(s, x, le) - 1], x),
    decreases s.len(),
{
    if s.len() > 0 && !le(s.last(), x) {
        let front = s.drop_last();
        lemma_insert_position(front, x, le);
        assert forall|k: int| insert_position(s, x, le) <= k < s.len() implies !#[trigger] le(
            s[k],
            x,
        ) by {
            if k < front.len() {
                assert(s[k] == front[k]);
            }
        }
    }
}

/// Only one index has the three properties of the insert position.
pub proof fn lemma_insert_position_unique<A>(s: Seq<A>, x: A, le: spec_fn(A, A) -> bool, j: int)
    requires
        0 <= j <= s.len(),
        forall|k: int| j <= k < s.len() ==> !#[trigger] le(s[k], x),
        j > 0 ==> le(s[j - 1], x),
    ensures
        j == insert_position(s, x, le),
{
    lemma_insert_position(s, x, le);
    let p = insert_position(s, x, le);
    if p < j {
        assert(!le(s[j - 1], x));
    } else if j < p {
        assert(!le(s[p - 1], x));
    }
}

/// Sorting keeps every row, as often as it occurs.
pub proof fn lemma_sort_by_permutes<A>(s: Seq<A>, le: spec_fn(A, A) -> bool)
    ensures
        sort_by(s, le).to_multiset() == s.to_multiset(),
        sort_by(s, le).len() == s.len(),
    decreases s.len(),
{
    broadcast use vstd::seq_lib::group_to_multiset_ensures;

    if s.len() == 0 {
        assert(s =~= Seq::empty());
    } else {
        let sorted = sort_by(s.drop_last(), le);
        lemma_sort_by_permutes(s.drop_last(), le);
        lemma_insert_position(sorted, s.last(), le);
        assert(s =~= s.drop_last().push(s.last()));
    }
}

/// Sorting brings in no row: every row of the sorted sequence is a row of
/// the sequence that was sorted, and the other way round.
pub proof fn lemma_sort_by_same_rows<A>(s: Seq<A>, le: spec_fn(A, A) -> bool, x: A)
    ensures
        sort_by(s, le).contains(x) <==> s.contains(x),
{
    broadcast use vstd::seq_lib::group_to_multiset_ensures;

    lemma_sort_by_permutes(s, le);
    assert(sort_by(s, le).to_multiset().count(x) == s.to_multiset().count(x));
}

/// No two rows have the same key.
pub open spec fn distinct_by<A, K>(s: Seq<A>, key: spec_fn(A) -> K) -> bool {
    forall|i: int, j: int| 0 <= i < j < s.len() ==> key(#[trigger] s[i]) != key(#[trigger] s[j])
}

/// Where no two rows have the same key, none have after sorting.
pub proof fn lemma_sort_by_keeps_distinct<A, K>(
    s: Seq<A>,
    le: spec_fn(A, A) -> bool,
    key: spec_fn(A) -> K,
)
    requires
        distinct_by(s, key),
    ensures
        distinct_by(sort_by(s, le), key),
    decreases s.len(),
{
    if s.len() > 0 {
        let front = s.drop_last();
        let x = s.last();
        let sorted = sort_by(front, le);
        let p = insert_position(sorted, x, le);
        assert(distinct_by(front, key)) by {
            assert forall|i: int, j: int| 0 <= i < j < front.len() implies key(
                #[trigger] front[i],
            ) != key(#[trigger] front[j]) by {
                assert(front[i] == s[i] && front[j] == s[j]);
            }
        }
        lemma_sort_by_keeps_distinct(front, le, key);
        lemma_insert_position(sorted, x, le);
        let r = sorted.insert(p, x);
        assert forall|k: int| 0 <= k < sorted.len() implies key(#[trigger] sorted[k]) != key(
            x,
        ) by {
            lemma_sort_by_same_rows(front, le, sorted[k]);
            assert(sorted.contains(sorted[k]));
            let w = choose|w: int| 0 <= w < front.len() && front[w] == sorted[k];
            assert(s[w] == sorted[k]);
            assert(key(s[w]) != key(s[s.len() - 1]));
        }
        assert forall|i: int, j: int| 0 <= i < j < r.len() implies key(#[trigger] r[i]) != key(
            #[trigger] r[j],
        ) by {
            if i == p {
                assert(r[j] == sorted[j - 1]);
            } else if j == p {
                assert(r[i] == sorted[i]);
            } else {
                let a = if i < p { i } else { i - 1 };
                let b = if j < p { j } else { j - 1 };
                assert(r[i] == sorted[a] && r[j] == sorted[b]);
            }
        }
    }
}

/// Under a total and transitive order the sorted sequence is in order.
pub proof fn lemma_sort_by_ordered<A>(s: Seq<A>, le: spec_fn(A, A) -> bool)
    requires
        is_total(le),
        is_transitive(le),
    ensures
        ordered_by(sort_by(s, le), le),
    decreases s.len(),
{
    if s.len() > 0 {
        let sorted = sort_by(s.drop_last(), le);
        let x = s.last();
        let p = insert_position(sorted, x, le);
        lemma_sort_by_ordered(s.drop_last(), le);
        lemma_insert_position(sorted, x, le);
        let r = sorted.insert(p, x);
        assert forall|i: int, j: int| 0 <= i < j < r.len() implies #[trigger] le(r[i], r[j]) by {
            if j < p {
                assert(le(sorted[i], sorted[j]));
            } else if j == p {
                if i < p - 1 {
                    assert(le(sorted[i], sorted[p - 1]));
                }
                assert(le(sorted[p - 1], x));
            } else if i < p {
                assert(le(sorted[i], sorted[j - 1]));
            } else if i == p {
                assert(!le(sorted[j - 1], x));
            } else {
                assert(le(sorted[i - 1], sorted[j - 1]));
            }
        }
    }
}

} // verus!
