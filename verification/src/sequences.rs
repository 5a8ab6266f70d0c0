//! Facts about sequences that the model leans on.

use vstd::prelude::*;

verus! {

/// Keeping what passes a test that every item passes keeps the sequence.
pub proof fn lemma_filter_keeps_all<A>(s: Seq<A>, keep: spec_fn(A) -> bool)
    requires
        forall|i: int| 0 <= i < s.len() ==> keep(s[i]),
    ensures
        s.filter(keep) == s,
    decreases s.len(),
{
    reveal(Seq::filter);
    if s.len() > 0 {
        let front = s.drop_last();
        assert(forall|i: int| 0 <= i < front.len() ==> front[i] == s[i]);
        lemma_filter_keeps_all(front, keep);
        assert(front.push(s.last()) =~= s);
    }
}

/// Keeping what passes a test that one item alone fails takes that item out.
pub proof fn lemma_filter_removes_one<A>(s: Seq<A>, keep: spec_fn(A) -> bool, at: int)
    requires
        0 <= at < s.len(),
        !keep(s[at]),
        forall|i: int| 0 <= i < s.len() && i != at ==> keep(s[i]),
    ensures
        s.filter(keep) == s.remove(at),
    decreases s.len(),
{
    reveal(Seq::filter);
    let front = s.drop_last();
    assert(forall|i: int| 0 <= i < front.len() ==> front[i] == s[i]);
    if at == s.len() - 1 {
        lemma_filter_keeps_all(front, keep);
        assert(s.remove(at) =~= front);
    } else {
        lemma_filter_removes_one(front, keep, at);
        assert(s.remove(at) =~= front.remove(at).push(s.last()));
    }
}

/// A set of numbers that holds every number below `k` has at least `k` members.
pub proof fn lemma_prefix_fits(s: Set<u128>, k: nat)
    requires
        s.finite(),
        k <= u128::MAX,
        forall|j: u128| j < k ==> s.contains(j),
    ensures
        k <= s.len(),
    decreases k,
{
    if k > 0 {
        let top = (k - 1) as u128;
        assert(s.contains(top));
        lemma_prefix_fits(s.remove(top), (k - 1) as nat);
    }
}

} // verus!
