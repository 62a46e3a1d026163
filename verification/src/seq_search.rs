//! First- and last-occurrence searches over sequences.
//!
//! The store's apply semantics must be a function of the state, so every
//! "the row with this path" lookup is pinned to the first matching index.
//! These definitions and their characterizations are shared by all of them.

use vstd::prelude::*;

verus! {

/// Index of the first element satisfying `p`, or `-1` if none does.
pub open spec fn first_where<A>(s: Seq<A>, p: spec_fn(A) -> bool) -> int
    decreases s.len(),
{
    if s.len() == 0 {
        -1
    } else if p(s[0]) {
        0
    } else {
        let r = first_where(s.drop_first(), p);
        if r < 0 {
            -1
        } else {
            r + 1
        }
    }
}

/// What a `first_where` result means: a negative result is absence, a
/// non-negative one is the first hit.
pub proof fn lemma_first_where<A>(s: Seq<A>, p: spec_fn(A) -> bool)
    ensures
        first_where(s, p) < 0 ==> forall|j: int| 0 <= j < s.len() ==> !p(s[j]),
        first_where(s, p) >= 0 ==> 0 <= first_where(s, p) < s.len() && p(s[first_where(s, p)])
            && forall|j: int| 0 <= j < first_where(s, p) ==> !p(s[j]),
    decreases s.len(),
{
    if s.len() > 0 && !p(s[0]) {
        let t = s.drop_first();
        lemma_first_where(t, p);
        let r = first_where(t, p);
        if r < 0 {
            assert forall|j: int| 0 <= j < s.len() implies !p(s[j]) by {
                if j > 0 {
                    assert(t[j - 1] == s[j]);
                }
            }
        } else {
            assert(t[r] == s[r + 1]);
            assert forall|j: int| 0 <= j < r + 1 implies !p(s[j]) by {
                if j > 0 {
                    assert(t[j - 1] == s[j]);
                }
            }
        }
    }
}

/// A witness pins `first_where` down: if `i` matches and nothing before it
/// does, then `i` is the result.
pub proof fn lemma_first_where_is<A>(s: Seq<A>, p: spec_fn(A) -> bool, i: int)
    requires
        0 <= i < s.len(),
        p(s[i]),
        forall|j: int| 0 <= j < i ==> !p(s[j]),
    ensures
        first_where(s, p) == i,
    decreases s.len(),
{
    if i > 0 {
        lemma_first_where_is(s.drop_first(), p, i - 1);
    }
}

/// If nothing matches, the search comes back negative.
pub proof fn lemma_first_where_none<A>(s: Seq<A>, p: spec_fn(A) -> bool)
    requires
        forall|j: int| 0 <= j < s.len() ==> !p(s[j]),
    ensures
        first_where(s, p) == -1,
    decreases s.len(),
{
    if s.len() > 0 {
        lemma_first_where_none(s.drop_first(), p);
    }
}

/// One matching position puts at least one element in the filtered sequence.
pub proof fn lemma_filter_at_least_one<A>(s: Seq<A>, p: spec_fn(A) -> bool, i: int)
    requires
        0 <= i < s.len(),
        p(s[i]),
    ensures
        s.filter(p).len() >= 1,
    decreases s.len(),
{
    reveal(Seq::filter);
    if i < s.len() - 1 {
        lemma_filter_at_least_one(s.drop_last(), p, i);
    }
}

/// Two distinct matching positions put at least two elements in the
/// filtered sequence, even when the elements are equal values.
pub proof fn lemma_filter_at_least_two<A>(s: Seq<A>, p: spec_fn(A) -> bool, i: int, j: int)
    requires
        0 <= i < j < s.len(),
        p(s[i]),
        p(s[j]),
    ensures
        s.filter(p).len() >= 2,
    decreases s.len(),
{
    reveal(Seq::filter);
    if j < s.len() - 1 {
        lemma_filter_at_least_two(s.drop_last(), p, i, j);
    } else {
        lemma_filter_at_least_one(s.drop_last(), p, i);
    }
}

/// Index of the last occurrence of `c`, or `-1` if `c` does not occur.
pub open spec fn last_index_of(s: Seq<char>, c: char) -> int
    decreases s.len(),
{
    if s.len() == 0 {
        -1
    } else if s[s.len() - 1] == c {
        s.len() - 1
    } else {
        last_index_of(s.drop_last(), c)
    }
}

/// A witness pins `last_index_of` down.
pub proof fn lemma_last_index_of_is(s: Seq<char>, c: char, i: int)
    requires
        0 <= i < s.len(),
        s[i] == c,
        forall|j: int| i < j < s.len() ==> s[j] != c,
    ensures
        last_index_of(s, c) == i,
    decreases s.len(),
{
    if i < s.len() - 1 {
        lemma_last_index_of_is(s.drop_last(), c, i);
    }
}

/// If `c` does not occur, the search comes back negative.
pub proof fn lemma_last_index_of_none(s: Seq<char>, c: char)
    requires
        forall|j: int| 0 <= j < s.len() ==> s[j] != c,
    ensures
        last_index_of(s, c) == -1,
    decreases s.len(),
{
    if s.len() > 0 {
        lemma_last_index_of_none(s.drop_last(), c);
    }
}

} // verus!
