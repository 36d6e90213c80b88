//! Facts about sequences whose elements are rearranged in place.

use vstd::prelude::*;
use vstd::seq_lib::to_multiset_update;

verus! {

/// Exchanging two elements of a sequence keeps what it holds.
pub proof fn lemma_exchange_keeps_elements<A>(s: Seq<A>, a: int, b: int)
    requires
        0 <= a < s.len(),
        0 <= b < s.len(),
    ensures
        s.update(a, s[b]).update(b, s[a]).to_multiset() =~= s.to_multiset(),
{
    broadcast use vstd::multiset::group_multiset_axioms;

    let s1 = s.update(a, s[b]);
    to_multiset_update(s, a, s[b]);
    to_multiset_update(s1, b, s[a]);
    s.to_multiset_ensures();
    assert(s.to_multiset().count(s[a]) > 0) by {
        assert(s.contains(s[a]));
    }
    assert(s.to_multiset().count(s[b]) > 0) by {
        assert(s.contains(s[b]));
    }
}

/// A permutation of a sequence without repetitions has none either.
pub proof fn lemma_rearranged_keeps_distinct<A>(a: Seq<A>, b: Seq<A>)
    requires
        a.no_duplicates(),
        a.to_multiset() =~= b.to_multiset(),
    ensures
        b.no_duplicates(),
{
    a.lemma_multiset_has_no_duplicates();
    b.lemma_multiset_has_no_duplicates_conv();
}

/// Every element of a permutation of a range stands somewhere in that range.
pub proof fn lemma_rearranged_has_source<A>(a: Seq<A>, b: Seq<A>, k: int) -> (at: int)
    requires
        a.to_multiset() =~= b.to_multiset(),
        0 <= k < b.len(),
    ensures
        0 <= at < a.len(),
        a[at] == b[k],
{
    a.to_multiset_ensures();
    b.to_multiset_ensures();
    assert(b.contains(b[k]));
    assert(b.to_multiset().count(b[k]) > 0);
    assert(a.to_multiset().count(b[k]) > 0);
    assert(a.contains(b[k]));
    choose|at: int| 0 <= at < a.len() && a[at] == b[k]
}

/// What two adjoining ranges hold together is what the range over both holds.
pub proof fn lemma_adjoining_ranges<A>(s: Seq<A>, lo: int, mid: int, hi: int)
    requires
        0 <= lo <= mid <= hi <= s.len(),
    ensures
        s.subrange(lo, hi) =~= s.subrange(lo, mid) + s.subrange(mid, hi),
        s.subrange(lo, hi).to_multiset() =~= s.subrange(lo, mid).to_multiset().add(
            s.subrange(mid, hi).to_multiset(),
        ),
{
    let left = s.subrange(lo, mid);
    let right = s.subrange(mid, hi);
    assert(s.subrange(lo, hi) =~= left + right);
    vstd::seq_lib::lemma_multiset_commutative(left, right);
    assert((left + right).to_multiset() =~= left.to_multiset().add(right.to_multiset()));
}

} // verus!
