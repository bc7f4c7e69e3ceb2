//! The first failure in a sequence of checks, each of which may report one.
use vstd::prelude::*;

verus! {

/// The first `Some` of `s`, in order, if there is one.
pub open spec fn first_some<E>(s: Seq<Option<E>>) -> Option<E>
    decreases s.len(),
{
    if s.len() == 0 {
        None
    } else if s[0] is Some {
        s[0]
    } else {
        first_some(s.drop_first())
    }
}

/// Where every entry before `i` is `None`, the first `Some` is the entry at
/// `i`, if that is one.
pub proof fn lemma_first_some_at<E>(s: Seq<Option<E>>, i: int)
    requires
        0 <= i < s.len(),
        forall|k: int| 0 <= k < i ==> s[k] is None,
        s[i] is Some,
    ensures
        first_some(s) == s[i],
    decreases i,
{
    if i > 0 {
        let t = s.drop_first();
        assert forall|k: int| 0 <= k < i - 1 implies t[k] is None by {
            assert(s[k + 1] is None);
        }
        lemma_first_some_at(t, i - 1);
    }
}

/// A sequence of `None` has no first `Some`.
pub proof fn lemma_first_some_none<E>(s: Seq<Option<E>>)
    requires
        forall|k: int| 0 <= k < s.len() ==> s[k] is None,
    ensures
        first_some(s) is None,
    decreases s.len(),
{
    if s.len() > 0 {
        let t = s.drop_first();
        assert forall|k: int| 0 <= k < t.len() implies t[k] is None by {
            assert(s[k + 1] is None);
        }
        lemma_first_some_none(t);
    }
}

/// A sequence with some `Some` has a first one.
pub proof fn lemma_first_some_exists<E>(s: Seq<Option<E>>, i: int)
    requires
        0 <= i < s.len(),
        s[i] is Some,
    ensures
        first_some(s) is Some,
    decreases i,
{
    if s[0] is None {
        let t = s.drop_first();
        assert(t[i - 1] == s[i]);
        lemma_first_some_exists(t, i - 1);
    }
}

} // verus!
