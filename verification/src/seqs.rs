//! Searching a sequence for the first element of a kind.

use vstd::prelude::*;

verus! {

/// The position of the first element that `wanted` holds of, or the length of the sequence
/// where it holds of none.
pub open spec fn first_where<T>(s: Seq<T>, wanted: spec_fn(T) -> bool) -> int
    decreases s.len(),
{
    if s.len() == 0 || wanted(s[0]) {
        0
    } else {
        1 + first_where(s.drop_first(), wanted)
    }
}

/// The first wanted element is wanted, and no element before it is.
pub proof fn lemma_first_where<T>(s: Seq<T>, wanted: spec_fn(T) -> bool)
    ensures
        0 <= first_where(s, wanted) <= s.len(),
        first_where(s, wanted) < s.len() ==> wanted(s[first_where(s, wanted)]),
        forall|k: int| 0 <= k < first_where(s, wanted) ==> !wanted(#[trigger] s[k]),
    decreases s.len(),
{
    if s.len() > 0 && !wanted(s[0]) {
        let rest = s.drop_first();
        lemma_first_where(rest, wanted);
        assert forall|k: int| 0 <= k < first_where(s, wanted) implies !wanted(#[trigger] s[k]) by {
            if k > 0 {
                assert(rest[k - 1] == s[k]);
            }
        }
    }
}

/// Where a wanted element stands with none before it, it is the first.
pub proof fn lemma_first_where_is<T>(s: Seq<T>, wanted: spec_fn(T) -> bool, at: int)
    requires
        0 <= at <= s.len(),
        forall|k: int| 0 <= k < at ==> !wanted(#[trigger] s[k]),
        at < s.len() ==> wanted(s[at]),
    ensures
        first_where(s, wanted) == at,
    decreases s.len(),
{
    if at > 0 {
        let rest = s.drop_first();
        assert forall|k: int| 0 <= k < at - 1 implies !wanted(#[trigger] rest[k]) by {
            assert(rest[k] == s[k + 1]);
        }
        lemma_first_where_is(rest, wanted, at - 1);
    }
}

} // verus!
