//! Where a value first occurs in a sequence.

use vstd::prelude::*;

verus! {

/// The number of elements of `s` in front of the first one equal to `needle`;
/// `s.len()` if none is.
pub open spec fn position<T>(s: Seq<T>, needle: T) -> nat
    decreases s.len(),
{
    if s.len() == 0 || s[0] == needle {
        0
    } else {
        1 + position(s.drop_first(), needle)
    }
}

/// `position` is the index `k` at which `needle` stands with no occurrence before it,
/// or the length `k` of a sequence without one.
pub proof fn lemma_position_is<T>(s: Seq<T>, needle: T, k: int)
    requires
        0 <= k <= s.len(),
        forall|j: int| 0 <= j < k ==> s[j] != needle,
        k < s.len() ==> s[k] == needle,
    ensures
        position(s, needle) == k,
    decreases k,
{
    if k > 0 {
        lemma_position_is(s.drop_first(), needle, k - 1);
    }
}

/// `position` stays within the sequence, passes over no occurrence and stops at one.
pub proof fn lemma_position<T>(s: Seq<T>, needle: T)
    ensures
        position(s, needle) <= s.len(),
        forall|j: int| 0 <= j < position(s, needle) ==> s[j] != needle,
        position(s, needle) < s.len() ==> s[position(s, needle) as int] == needle,
        position(s, needle) < s.len() <==> s.contains(needle),
    decreases s.len(),
{
    if s.len() == 0 || s[0] == needle {
        if s.len() > 0 {
            assert(s[0] == needle);
        }
    } else {
        let t = s.drop_first();
        lemma_position(t, needle);
        let p = position(s, needle) as int;
        assert forall|j: int| 0 <= j < p implies s[j] != needle by {
            if j > 0 {
                assert(s[j] == t[j - 1]);
            }
        }
        if p < s.len() {
            assert(s[p] == t[p - 1]);
        }
        if s.contains(needle) {
            let i = choose|i: int| 0 <= i < s.len() && s[i] == needle;
            assert(t[i - 1] == needle);
        }
    }
}

} // verus!
