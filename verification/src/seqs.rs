//! First-match search over sequences, shared by the codec and the error
//! envelope.

use vstd::prelude::*;

verus! {

/// Index of the first element satisfying `p`, if any.
pub open spec fn find_first_index<A>(s: Seq<A>, p: spec_fn(A) -> bool) -> Option<int>
    decreases s.len(),
{
    if s.len() == 0 {
        None
    } else if p(s[0]) {
        Some(0)
    } else {
        match find_first_index(s.drop_first(), p) {
            None => None,
            Some(i) => Some(i + 1),
        }
    }
}

/// A least match pins `find_first_index` down.
pub proof fn lemma_find_first_index_is<A>(s: Seq<A>, p: spec_fn(A) -> bool, i: int)
    requires
        0 <= i < s.len(),
        p(s[i]),
        forall|k: int| 0 <= k < i ==> !p(s[k]),
    ensures
        find_first_index(s, p) == Some(i),
    decreases s.len(),
{
    if i == 0 {
    } else {
        assert(!p(s[0]));
        lemma_find_first_index_is(s.drop_first(), p, i - 1);
    }
}

/// No match at all pins `find_first_index` to `None`.
pub proof fn lemma_find_first_index_none<A>(s: Seq<A>, p: spec_fn(A) -> bool)
    requires
        forall|k: int| 0 <= k < s.len() ==> !p(s[k]),
    ensures
        find_first_index(s, p) == None::<int>,
    decreases s.len(),
{
    if s.len() > 0 {
        lemma_find_first_index_none(s.drop_first(), p);
    }
}

} // verus!
