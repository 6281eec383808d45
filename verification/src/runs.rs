//! Runs: the longest stretch at the start of a sequence whose items all have
//! some property.

use vstd::prelude::*;

verus! {

/// The length of the longest prefix of `s` whose items all satisfy `keep`.
pub open spec fn run_length<A>(s: Seq<A>, keep: spec_fn(A) -> bool) -> int
    decreases s.len(),
{
    if s.len() == 0 || !keep(s[0]) {
        0
    } else {
        1 + run_length(s.drop_first(), keep)
    }
}

/// The property of being any item but `c`.
pub open spec fn other_than<A>(c: A) -> spec_fn(A) -> bool {
    |x: A| x != c
}

/// The index of the first `c` in `s`, or the length of `s` where it holds
/// none.
pub open spec fn first_index<A>(s: Seq<A>, c: A) -> int {
    run_length(s, other_than(c))
}

/// A run lies within the sequence, everything in it has the property, and
/// the item after it, if there is one, has not.
pub proof fn lemma_run_length_is_maximal<A>(s: Seq<A>, keep: spec_fn(A) -> bool)
    ensures
        0 <= run_length(s, keep) <= s.len(),
        forall|j: int| 0 <= j < run_length(s, keep) ==> keep(#[trigger] s[j]),
        run_length(s, keep) < s.len() ==> !keep(s[run_length(s, keep)]),
    decreases s.len(),
{
    if s.len() == 0 || !keep(s[0]) {
    } else {
        let t = s.drop_first();
        lemma_run_length_is_maximal(t, keep);
        assert forall|j: int| 0 <= j < run_length(s, keep) implies keep(#[trigger] s[j]) by {
            if j > 0 {
                assert(s[j] == t[j - 1]);
            }
        }
    }
}

/// A prefix in which everything has the property, followed by the end of the
/// sequence or by an item without it, is the run.
pub proof fn lemma_run_length_found<A>(s: Seq<A>, keep: spec_fn(A) -> bool, k: int)
    requires
        0 <= k <= s.len(),
        forall|j: int| 0 <= j < k ==> keep(#[trigger] s[j]),
        k < s.len() ==> !keep(s[k]),
    ensures
        run_length(s, keep) == k,
    decreases s.len(),
{
    if k == 0 {
    } else {
        let t = s.drop_first();
        assert(keep(s[0]));
        assert forall|j: int| 0 <= j < k - 1 implies keep(#[trigger] t[j]) by {
            assert(t[j] == s[j + 1]);
        }
        lemma_run_length_found(t, keep, k - 1);
    }
}

/// A sequence holds `c` exactly when the first index of `c` lies inside it.
pub proof fn lemma_first_index_contains<A>(s: Seq<A>, c: A)
    ensures
        0 <= first_index(s, c) <= s.len(),
        s.contains(c) <==> first_index(s, c) < s.len(),
{
    lemma_run_length_is_maximal(s, other_than(c));
    let k = first_index(s, c);
    if k < s.len() {
        assert(s[k] == c);
    } else {
        assert forall|j: int| 0 <= j < s.len() implies s[j] != c by {
            assert(other_than(c)(s[j]));
        }
    }
}

} // verus!
