//! Small specification helpers over sequences: the first position satisfying
//! a predicate, and an order-preserving subsequence relation. The
//! accompanying lemmas tie straightforward scanning loops to these
//! definitions.

use vstd::prelude::*;

verus! {

/// The first index of `s` whose element satisfies `p`, or `s.len()` if none does.
pub open spec fn find_first<A>(s: Seq<A>, p: spec_fn(A) -> bool) -> int
    decreases s.len(),
{
    if s.len() == 0 {
        0
    } else if p(s[0]) {
        0
    } else {
        1 + find_first(s.drop_first(), p)
    }
}

/// A left-to-right scan that stopped at `i` found the first satisfying index.
pub proof fn lemma_find_first<A>(s: Seq<A>, p: spec_fn(A) -> bool, i: int)
    requires
        0 <= i <= s.len(),
        forall|j: int| 0 <= j < i ==> !p(s[j]),
        i < s.len() ==> p(s[i]),
    ensures
        find_first(s, p) == i,
    decreases i, s.len(),
{
    if s.len() == 0 {
    } else if i == 0 {
        if !p(s[0]) {
            // i == 0 and nothing satisfies p anywhere before the end of the scan,
            // which for i == 0 means s[0] fails p only when i == s.len(); impossible here.
            assert(i < s.len() ==> p(s[i]));
            assert(s.len() == 0);
        }
    } else {
        assert(!p(s[0]));
        let t = s.drop_first();
        assert forall|j: int| 0 <= j < i - 1 implies !p(t[j]) by {
            assert(t[j] == s[j + 1]);
        }
        if i - 1 < t.len() {
            assert(t[i - 1] == s[i]);
        }
        lemma_find_first(t, p, i - 1);
    }
}

/// `sub` appears inside `sup` in order: some strictly increasing index map
/// carries each position of `sub` to a position of `sup` with the same element.
pub open spec fn is_subseq_of<A>(sub: Seq<A>, sup: Seq<A>) -> bool {
    exists|m: Seq<int>|
        {
            &&& m.len() == sub.len()
            &&& (forall|i: int| 0 <= i < m.len() ==> 0 <= #[trigger] m[i] < sup.len())
            &&& (forall|i: int| 0 <= i < m.len() ==> sub[i] == sup[#[trigger] m[i]])
            &&& (forall|i: int| 0 <= i < m.len() - 1 ==> #[trigger] m[i] < m[i + 1])
        }
}

/// The index map that witnesses a subsequence, made explicit so that loops can
/// maintain it as ghost state.
pub open spec fn subseq_map_ok<A>(m: Seq<int>, sub: Seq<A>, sup: Seq<A>) -> bool {
    &&& m.len() == sub.len()
    &&& (forall|i: int| 0 <= i < m.len() ==> 0 <= #[trigger] m[i] < sup.len())
    &&& (forall|i: int| 0 <= i < m.len() ==> sub[i] == sup[#[trigger] m[i]])
    &&& (forall|i: int| 0 <= i < m.len() - 1 ==> #[trigger] m[i] < m[i + 1])
}

/// A valid index map is exactly a witness for the subsequence relation.
pub proof fn lemma_subseq_witness<A>(m: Seq<int>, sub: Seq<A>, sup: Seq<A>)
    requires
        subseq_map_ok(m, sub, sup),
    ensures
        is_subseq_of(sub, sup),
{
}

/// Removing one position from a subsequence and from its witness leaves a
/// valid witness.
pub proof fn lemma_subseq_map_remove<A>(m: Seq<int>, sub: Seq<A>, sup: Seq<A>, i: int)
    requires
        subseq_map_ok(m, sub, sup),
        0 <= i < m.len(),
    ensures
        subseq_map_ok(m.remove(i), sub.remove(i), sup),
{
    let m2 = m.remove(i);
    let s2 = sub.remove(i);
    assert forall|j: int| 0 <= j < m2.len() - 1 implies #[trigger] m2[j] < m2[j + 1] by {
        if j < i - 1 {
            assert(m2[j] == m[j] && m2[j + 1] == m[j + 1]);
        } else if j == i - 1 {
            assert(m2[j] == m[j] && m2[j + 1] == m[j + 2]);
            assert(m[j] < m[j + 1] && m[j + 1] < m[j + 2]);
        } else {
            assert(m2[j] == m[j + 1] && m2[j + 1] == m[j + 2]);
        }
    }
    assert forall|j: int| 0 <= j < m2.len() implies s2[j] == sup[#[trigger] m2[j]] by {
        if j < i {
            assert(m2[j] == m[j] && s2[j] == sub[j]);
        } else {
            assert(m2[j] == m[j + 1] && s2[j] == sub[j + 1]);
        }
    }
}

/// A strictly increasing map cannot fall below the identity.
proof fn lemma_increasing_low(m: Seq<int>, i: int)
    requires
        forall|j: int| 0 <= j < m.len() - 1 ==> #[trigger] m[j] < m[j + 1],
        0 <= m[0],
        0 <= i < m.len(),
    ensures
        m[i] >= i,
    decreases i,
{
    if i > 0 {
        lemma_increasing_low(m, i - 1);
        assert(m[i - 1] < m[i]);
    }
}

/// A strictly increasing map stays under the identity shifted by its headroom.
proof fn lemma_increasing_high(m: Seq<int>, i: int, bound: int)
    requires
        forall|j: int| 0 <= j < m.len() - 1 ==> #[trigger] m[j] < m[j + 1],
        forall|j: int| 0 <= j < m.len() ==> #[trigger] m[j] < bound,
        0 <= i < m.len(),
    ensures
        m[i] <= bound - (m.len() - i),
    decreases m.len() - i,
{
    if i < m.len() - 1 {
        lemma_increasing_high(m, i + 1, bound);
        assert(m[i] < m[i + 1]);
    }
}

/// A subsequence witness between sequences of equal length is the identity:
/// the sequences are the same.
pub proof fn lemma_subseq_full<A>(m: Seq<int>, sub: Seq<A>, sup: Seq<A>)
    requires
        subseq_map_ok(m, sub, sup),
        sub.len() == sup.len(),
    ensures
        sub =~= sup,
{
    assert forall|i: int| 0 <= i < sub.len() implies sub[i] == sup[i] by {
        lemma_increasing_low(m, i);
        lemma_increasing_high(m, i, sup.len() as int);
        assert(m[i] == i);
    }
}

} // verus!
