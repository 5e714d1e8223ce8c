//! Searching sequences: the first occurrence of a value and the first
//! element that repeats an earlier one.

use vstd::prelude::*;

verus! {

/// The first position at or after `from` where `s` holds `x`, or the length
/// of `s` where there is none.
pub open spec fn first_index<A>(s: Seq<A>, x: A, from: int) -> int
    decreases s.len() - from,
{
    if from < 0 || from >= s.len() {
        s.len() as int
    } else if s[from] == x {
        from
    } else {
        first_index(s, x, from + 1)
    }
}

/// The first position at or after `from` whose element also occurs at an
/// earlier position of `s`, or the length of `s` where there is none.
pub open spec fn first_repeat<A>(s: Seq<A>, from: int) -> int
    decreases s.len() - from,
{
    if from < 0 || from >= s.len() {
        s.len() as int
    } else if first_index(s, s[from], 0) < from {
        from
    } else {
        first_repeat(s, from + 1)
    }
}

/// `first_index` finds `x`, and nothing before what it finds is `x`.
pub proof fn lemma_first_index<A>(s: Seq<A>, x: A, from: int)
    requires
        0 <= from <= s.len(),
    ensures
        from <= first_index(s, x, from) <= s.len(),
        first_index(s, x, from) < s.len() ==> s[first_index(s, x, from)] == x,
        forall|k: int| from <= k < first_index(s, x, from) ==> s[k] != x,
    decreases s.len() - from,
{
    if from < s.len() && s[from] != x {
        lemma_first_index(s, x, from + 1);
    }
}

/// `first_repeat` finds an element that occurred before, and every element
/// before what it finds, from `from` on, is the first of its value.
pub proof fn lemma_first_repeat<A>(s: Seq<A>, from: int)
    requires
        0 <= from <= s.len(),
    ensures
        from <= first_repeat(s, from) <= s.len(),
        first_repeat(s, from) < s.len() ==> first_index(s, s[first_repeat(s, from)], 0)
            < first_repeat(s, from),
        forall|k: int|
            from <= k < first_repeat(s, from) ==> first_index(s, #[trigger] s[k], 0) == k,
    decreases s.len() - from,
{
    if from < s.len() {
        lemma_first_index(s, s[from], 0);
        if !(first_index(s, s[from], 0) < from) {
            lemma_first_repeat(s, from + 1);
        }
    }
}

/// A sequence has no repeated element exactly when its elements are
/// pairwise different.
pub proof fn lemma_no_repeat_iff_distinct<A>(s: Seq<A>)
    ensures
        first_repeat(s, 0) == s.len() <==> s.no_duplicates(),
{
    lemma_first_repeat(s, 0);
    let r = first_repeat(s, 0);
    if r == s.len() {
        assert forall|i: int, j: int| 0 <= i < s.len() && 0 <= j < s.len() && i != j implies s[i]
            != s[j] by {
            lemma_first_index(s, s[i], 0);
            lemma_first_index(s, s[j], 0);
            assert(first_index(s, s[i], 0) == i);
            assert(first_index(s, s[j], 0) == j);
        }
    } else {
        lemma_first_index(s, s[r], 0);
        let i = first_index(s, s[r], 0);
        assert(s[i] == s[r] && i != r);
    }
}

/// Whether `s` holds `x`, in terms of `first_index`.
pub proof fn lemma_first_index_contains<A>(s: Seq<A>, x: A)
    ensures
        first_index(s, x, 0) < s.len() <==> s.contains(x),
{
    lemma_first_index(s, x, 0);
    if s.contains(x) {
        let k = choose|k: int| 0 <= k < s.len() && s[k] == x;
        assert(!(k < first_index(s, x, 0)));
    }
}

} // verus!
