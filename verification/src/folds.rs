//! Steps through a list from its front.

use vstd::prelude::*;

verus! {

/// The first `i + 1` elements are the first `i` and the next one.
pub proof fn lemma_take_next<T>(s: Seq<T>, i: int)
    requires
        0 <= i < s.len(),
    ensures
        s.take(i + 1).drop_last() == s.take(i),
        s.take(i + 1).last() == s[i],
{
    assert(s.take(i + 1).drop_last() =~= s.take(i));
}

/// A list with one more element at its end holds that one and what it held.
pub proof fn lemma_push_contains<T>(s: Seq<T>, last: T, e: T)
    ensures
        s.push(last).contains(e) <==> s.contains(e) || e == last,
{
    assert(s.push(last)[s.len() as int] == last);
    if s.contains(e) {
        let k = choose|k: int| 0 <= k < s.len() && s[k] == e;
        assert(s.push(last)[k] == e);
    }
    if s.push(last).contains(e) {
        let k = choose|k: int| 0 <= k < s.len() + 1 && s.push(last)[k] == e;
        if k < s.len() {
            assert(s[k] == e);
        }
    }
}

/// A list that is not empty holds its last element and what stands before it.
pub proof fn lemma_last_contains<T>(s: Seq<T>, e: T)
    requires
        s.len() > 0,
    ensures
        s.contains(e) <==> s.drop_last().contains(e) || e == s.last(),
{
    assert(s =~= s.drop_last().push(s.last()));
    lemma_push_contains(s.drop_last(), s.last(), e);
}

} // verus!
