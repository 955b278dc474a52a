//! Positions of the first element that satisfies a condition.

use vstd::prelude::*;

verus! {

/// `k` is the position of the first element of `s` satisfying `p`, or the
/// length of `s` when none does.
pub open spec fn is_first_match<T>(s: Seq<T>, p: spec_fn(T) -> bool, k: int) -> bool {
    &&& 0 <= k <= s.len()
    &&& forall|j: int| 0 <= j < k ==> !p(#[trigger] s[j])
    &&& k < s.len() ==> p(s[k])
}

/// The position of the first element of `s` satisfying `p`; the length of `s`
/// when none does.
pub open spec fn first_match<T>(s: Seq<T>, p: spec_fn(T) -> bool) -> int {
    choose|k: int| is_first_match(s, p, k)
}

/// There is exactly one first position, and `first_match` is it.
pub proof fn lemma_first_match<T>(s: Seq<T>, p: spec_fn(T) -> bool, k: int)
    requires
        is_first_match(s, p, k),
    ensures
        first_match(s, p) == k,
{
    let c = first_match(s, p);
    assert(is_first_match(s, p, c));
    if c < k {
        assert(!p(s[c]));
    } else if k < c {
        assert(!p(s[k]));
    }
}

proof fn lemma_first_match_from<T>(s: Seq<T>, p: spec_fn(T) -> bool, i: int)
    requires
        0 <= i <= s.len(),
        forall|j: int| 0 <= j < i ==> !p(#[trigger] s[j]),
    ensures
        exists|k: int| is_first_match(s, p, k),
    decreases s.len() - i,
{
    if i == s.len() || p(s[i]) {
        assert(is_first_match(s, p, i));
    } else {
        lemma_first_match_from(s, p, i + 1);
    }
}

/// Every sequence has a first position for every condition, and
/// `first_match` gives it.
pub proof fn lemma_first_match_exists<T>(s: Seq<T>, p: spec_fn(T) -> bool)
    ensures
        is_first_match(s, p, first_match(s, p)),
{
    lemma_first_match_from(s, p, 0);
}

} // verus!

verus! {

/// Filtering a sequence extended by one element.
pub proof fn lemma_filter_push<A>(s: Seq<A>, p: spec_fn(A) -> bool, x: A)
    ensures
        s.push(x).filter(p) == if p(x) {
            s.filter(p).push(x)
        } else {
            s.filter(p)
        },
{
    reveal(Seq::filter);
    assert(s.push(x).drop_last() =~= s);
}

/// Filtering keeps a sequence whole when every element passes.
pub proof fn lemma_filter_all<A>(s: Seq<A>, p: spec_fn(A) -> bool)
    requires
        forall|i: int| 0 <= i < s.len() ==> p(#[trigger] s[i]),
    ensures
        s.filter(p) == s,
    decreases s.len(),
{
    if s.len() == 0 {
        reveal(Seq::filter);
        assert(s.filter(p) =~= s);
    } else {
        let t = s.drop_last();
        assert forall|i: int| 0 <= i < t.len() implies p(#[trigger] t[i]) by {
            assert(t[i] == s[i]);
        }
        lemma_filter_all(t, p);
        lemma_filter_push(t, p, s.last());
        assert(t.push(s.last()) =~= s);
    }
}

} // verus!
