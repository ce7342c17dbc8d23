//! Finding the first item of a sequence that is wanted.

use vstd::prelude::*;

verus! {

/// Index of the first item of `s` that is wanted; the length of `s` where
/// none is.
pub open spec fn first_index<T>(s: Seq<T>, wanted: spec_fn(T) -> bool) -> int
    decreases s.len(),
{
    if s.len() == 0 {
        0
    } else if wanted(s[0]) {
        0
    } else {
        1 + first_index(s.drop_first(), wanted)
    }
}

/// `s` without the first of its items that is wanted; `s` itself where none
/// is.
pub open spec fn without_first<T>(s: Seq<T>, wanted: spec_fn(T) -> bool) -> Seq<T> {
    let k = first_index(s, wanted);
    if k < s.len() {
        s.remove(k)
    } else {
        s
    }
}

/// An index before which nothing is wanted, and which holds a wanted item
/// or is the length, is the first index.
pub proof fn lemma_first_index<T>(s: Seq<T>, wanted: spec_fn(T) -> bool, k: int)
    requires
        0 <= k <= s.len(),
        forall|j: int| 0 <= j < k ==> !wanted(#[trigger] s[j]),
        k < s.len() ==> wanted(s[k]),
    ensures
        first_index(s, wanted) == k,
    decreases s.len(),
{
    if s.len() > 0 && k > 0 {
        let rest = s.drop_first();
        assert(!wanted(s[0]));
        assert forall|j: int| 0 <= j < k - 1 implies !wanted(#[trigger] rest[j]) by {
            assert(rest[j] == s[j + 1]);
        }
        lemma_first_index(rest, wanted, k - 1);
    }
}

/// The first index lies within the sequence or is its length; nothing
/// before it is wanted, and the item at it is.
pub proof fn lemma_first_index_is_first<T>(s: Seq<T>, wanted: spec_fn(T) -> bool)
    ensures
        0 <= first_index(s, wanted) <= s.len(),
        forall|j: int| 0 <= j < first_index(s, wanted) ==> !wanted(#[trigger] s[j]),
        first_index(s, wanted) < s.len() ==> wanted(s[first_index(s, wanted)]),
    decreases s.len(),
{
    if s.len() > 0 && !wanted(s[0]) {
        let rest = s.drop_first();
        lemma_first_index_is_first(rest, wanted);
        let k = first_index(rest, wanted);
        assert forall|j: int| 0 <= j < k + 1 implies !wanted(#[trigger] s[j]) by {
            if j > 0 {
                assert(s[j] == rest[j - 1]);
            }
        }
        if k < rest.len() {
            assert(s[k + 1] == rest[k]);
        }
    }
}

} // verus!
