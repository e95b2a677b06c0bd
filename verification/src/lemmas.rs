//! Facts about sequences that several modules use.

use vstd::prelude::*;

verus! {

/// A sequence holds what it holds without its last element, and that
/// element.
pub proof fn lemma_contains_last<A>(s: Seq<A>, x: A)
    requires
        s.len() > 0,
    ensures
        s.contains(x) <==> s.drop_last().contains(x) || x == s.last(),
{
    assert(s =~= s.drop_last().push(s.last()));
    vstd::seq_lib::lemma_seq_contains_after_push(s.drop_last(), s.last(), x);
}

/// The first `n + 1` elements of a sequence hold what the first `n` hold,
/// and the element at `n`.
pub proof fn lemma_take_contains_next<A>(s: Seq<A>, n: int, x: A)
    requires
        0 <= n < s.len(),
    ensures
        s.take(n + 1).contains(x) <==> s.take(n).contains(x) || x == s[n],
{
    assert(s.take(n + 1).drop_last() =~= s.take(n));
    lemma_contains_last(s.take(n + 1), x);
}

} // verus!
