//! The construction of the bounding-volume hierarchy: the primitives are
//! sorted on a random axis and split in the middle, half by half.

use vstd::prelude::*;
use crate::bvh::{
    indices, keys_are_numbers, precedes, sort_key, spec_precedes, BVHNode, BvhChild, BvhEntry,
};
use crate::hittable::Hittable;
use crate::hittable_list::HittableList;
use crate::random::{draw_axis, thread_rng, Rng};
use crate::rearrange::{
    lemma_adjoining_ranges, lemma_exchange_keeps_elements, lemma_rearranged_has_source,
    lemma_rearranged_keeps_distinct,
};
use crate::scalar::Scalar;

verus! {

/// Whether `entries` may describe `objs`, one by one: the sort box is a box
/// of the object at time zero, the bound a box of it over `[time0, time1]`.
pub open spec fn describes<H: Hittable>(
    objs: Seq<H>,
    time0: Scalar,
    time1: Scalar,
    entries: Seq<BvhEntry>,
) -> bool {
    &&& entries.len() == objs.len()
    &&& forall|i: int|
        0 <= i < objs.len() ==> {
            &&& objs[i].admits_box(Scalar { bits: 0 }, Scalar { bits: 0 }, Some((#[trigger] entries[i]).sort_box))
            &&& objs[i].admits_box(time0, time1, Some(entries[i].bound))
        }
}

/// Whether `obj` may be without a box at time zero or over `[time0, time1]`.
pub open spec fn may_lack_box<H: Hittable>(obj: H, time0: Scalar, time1: Scalar) -> bool {
    obj.admits_box(Scalar { bits: 0 }, Scalar { bits: 0 }, None) || obj.admits_box(
        time0,
        time1,
        None,
    )
}

/// The rank of the sort key of the primitive at position `k` of `order`.
pub open spec fn rank_at(entries: Seq<BvhEntry>, order: Seq<usize>, k: int, axis: usize) -> int {
    sort_key(entries[order[k] as int].sort_box, axis).rank()
}

/// Whether the positions `lo..hi` of `order` name primitives in the order
/// of their sort keys on `axis`: none comes strictly before an earlier one.
pub open spec fn sorted_on(
    entries: Seq<BvhEntry>,
    order: Seq<usize>,
    lo: int,
    hi: int,
    axis: usize,
) -> bool {
    forall|a: int, b: int|
        lo <= a <= b < hi ==> !spec_precedes(
            entries[(#[trigger] order[b]) as int].sort_box,
            entries[(#[trigger] order[a]) as int].sort_box,
            axis,
        )
}

/// Whether every position of `order` names an entry.
pub open spec fn names_entries(entries: Seq<BvhEntry>, order: Seq<usize>) -> bool {
    forall|k: int| 0 <= k < order.len() ==> (#[trigger] order[k]) < entries.len()
}

/// Sorts the positions `lo..hi` of `order` by the sort keys on `axis` of the
/// entries that they name, by insertion.
fn sort_range(entries: &Vec<BvhEntry>, order: &mut Vec<usize>, lo: usize, hi: usize, axis: usize)
    requires
        lo <= hi <= old(order)@.len(),
        axis < 3,
        names_entries(entries@, old(order)@),
    ensures
        final(order)@.len() == old(order)@.len(),
        names_entries(entries@, final(order)@),
        forall|k: int|
            0 <= k < lo || hi <= k < old(order)@.len() ==> final(order)@[k] == old(order)@[k],
        final(order)@.subrange(lo as int, hi as int).to_multiset() =~= old(order)@.subrange(
            lo as int,
            hi as int,
        ).to_multiset(),
        keys_are_numbers(entries@) ==> sorted_on(
            entries@,
            final(order)@,
            lo as int,
            hi as int,
            axis,
        ),
{
    if hi - lo < 2 {
        return ;
    }
    let mut i: usize = lo + 1;
    while i < hi
        invariant
            lo < i <= hi <= order@.len(),
            axis < 3,
            order@.len() == old(order)@.len(),
            names_entries(entries@, order@),
            forall|k: int|
                0 <= k < lo || hi <= k < order@.len() ==> order@[k] == old(order)@[k],
            order@.subrange(lo as int, hi as int).to_multiset() =~= old(order)@.subrange(
                lo as int,
                hi as int,
            ).to_multiset(),
            keys_are_numbers(entries@) ==> forall|a: int, b: int|
                lo <= a <= b < i ==> #[trigger] rank_at(entries@, order@, a, axis) <= #[trigger] rank_at(
                    entries@,
                    order@,
                    b,
                    axis,
                ),
        decreases hi - i,
    {
        let mut j: usize = i;
        while j > lo && precedes(&entries[order[j]].sort_box, &entries[order[j - 1]].sort_box, axis)
            invariant
                lo <= j <= i < hi <= order@.len(),
                axis < 3,
                order@.len() == old(order)@.len(),
                names_entries(entries@, order@),
                forall|k: int|
                    0 <= k < lo || hi <= k < order@.len() ==> order@[k] == old(order)@[k],
                order@.subrange(lo as int, hi as int).to_multiset() =~= old(order)@.subrange(
                    lo as int,
                    hi as int,
                ).to_multiset(),
                keys_are_numbers(entries@) ==> forall|a: int, b: int|
                    lo <= a <= b <= i && a != j && b != j ==> #[trigger] rank_at(
                        entries@,
                        order@,
                        a,
                        axis,
                    ) <= #[trigger] rank_at(entries@, order@, b, axis),
                keys_are_numbers(entries@) ==> forall|b: int|
                    j < b <= i ==> rank_at(entries@, order@, j as int, axis) < #[trigger] rank_at(
                        entries@,
                        order@,
                        b,
                        axis,
                    ),
            decreases j,
        {
            let ghost before = order@;
            let upper = order[j];
            let lower = order[j - 1];
            order.set(j, lower);
            order.set(j - 1, upper);
            proof {
                let range = before.subrange(lo as int, hi as int);
                lemma_exchange_keeps_elements(range, j - lo, j - 1 - lo);
                assert(order@.subrange(lo as int, hi as int) =~= range.update(
                    j - lo,
                    range[j - 1 - lo],
                ).update(j - 1 - lo, range[j - lo]));
                if keys_are_numbers(entries@) {
                    assert(rank_at(entries@, before, j as int, axis) < rank_at(
                        entries@,
                        before,
                        j - 1,
                        axis,
                    ));
                    assert forall|a: int, b: int|
                        lo <= a <= b <= i && a != j - 1 && b != j - 1 implies #[trigger] rank_at(
                        entries@,
                        order@,
                        a,
                        axis,
                    ) <= #[trigger] rank_at(entries@, order@, b, axis) by {
                        let pa = if a == j { j - 1 } else { a };
                        let pb = if b == j { j - 1 } else { b };
                        assert(rank_at(entries@, order@, a, axis) == rank_at(entries@, before, pa, axis));
                        assert(rank_at(entries@, order@, b, axis) == rank_at(entries@, before, pb, axis));
                        if b == j && a < j - 1 {
                            assert(rank_at(entries@, before, a, axis) <= rank_at(
                                entries@,
                                before,
                                j - 1,
                                axis,
                            ));
                        }
                    }
                    assert forall|b: int| j - 1 < b <= i implies rank_at(
                        entries@,
                        order@,
                        j - 1,
                        axis,
                    ) < #[trigger] rank_at(entries@, order@, b, axis) by {
                        assert(rank_at(entries@, order@, j - 1, axis) == rank_at(
                            entries@,
                            before,
                            j as int,
                            axis,
                        ));
                        if b == j {
                            assert(rank_at(entries@, order@, b, axis) == rank_at(
                                entries@,
                                before,
                                j - 1,
                                axis,
                            ));
                        } else {
                            assert(rank_at(entries@, order@, b, axis) == rank_at(
                                entries@,
                                before,
                                b,
                                axis,
                            ));
                        }
                    }
                }
            }
            j = j - 1;
        }
        proof {
            if keys_are_numbers(entries@) {
                assert forall|a: int, b: int| lo <= a <= b < i + 1 implies #[trigger] rank_at(
                    entries@,
                    order@,
                    a,
                    axis,
                ) <= #[trigger] rank_at(entries@, order@, b, axis) by {
                    if a != j && b == j && j > lo {
                        assert(rank_at(entries@, order@, a, axis) <= rank_at(
                            entries@,
                            order@,
                            j - 1,
                            axis,
                        ));
                        assert(rank_at(entries@, order@, j - 1, axis) <= rank_at(
                            entries@,
                            order@,
                            j as int,
                            axis,
                        ));
                    }
                }
            }
        }
        i = i + 1;
    }
    proof {
        if keys_are_numbers(entries@) {
            assert forall|a: int, b: int| lo <= a <= b < hi implies !spec_precedes(
                entries@[(#[trigger] order@[b]) as int].sort_box,
                entries@[(#[trigger] order@[a]) as int].sort_box,
                axis,
            ) by {
                assert(rank_at(entries@, order@, a, axis) <= rank_at(entries@, order@, b, axis));
            }
        }
    }
}

impl BVHNode {
    /// Builds the node over the primitives that the positions `lo..hi` of
    /// `order` name, and leaves them there in the order of the tree's leaves.
    fn build(
        rng: &mut Rng,
        entries: &Vec<BvhEntry>,
        order: &mut Vec<usize>,
        lo: usize,
        hi: usize,
    ) -> (node: BVHNode)
        requires
            lo < hi <= old(order)@.len(),
            names_entries(entries@, old(order)@),
            old(order)@.subrange(lo as int, hi as int).no_duplicates(),
        ensures
            final(order)@.len() == old(order)@.len(),
            names_entries(entries@, final(order)@),
            forall|k: int|
                0 <= k < lo || hi <= k < old(order)@.len() ==> final(order)@[k] == old(order)@[k],
            final(order)@.subrange(lo as int, hi as int).to_multiset() =~= old(order)@.subrange(
                lo as int,
                hi as int,
            ).to_multiset(),
            node.items() =~= final(order)@.subrange(lo as int, hi as int),
            node.bounded(entries@),
            node.halved(),
            keys_are_numbers(entries@) ==> node.ordered(entries@),
            hi - lo == 1 ==> node.left == BvhChild::Leaf(old(order)@[lo as int]) && node.right
                == BvhChild::Leaf(old(order)@[lo as int]),
            hi - lo == 2 ==> node.paired(
                entries@,
                old(order)@[lo as int],
                old(order)@[lo + 1],
            ),
        decreases hi - lo,
    {
        let axis = draw_axis(rng);
        let len = hi - lo;
        let ghost start = order@;
        let (left, right) = if len == 1 {
            proof {
                assert(order@.subrange(lo as int, hi as int) =~= seq![order@[lo as int]]);
            }
            (BvhChild::Leaf(order[lo]), BvhChild::Leaf(order[lo]))
        } else if len == 2 {
            let first = order[lo];
            let second = order[lo + 1];
            proof {
                let range = start.subrange(lo as int, hi as int);
                assert(range[0] == first && range[1] == second);
                assert(first != second);
            }
            if precedes(&entries[first].sort_box, &entries[second].sort_box, axis) {
                proof {
                    assert(order@.subrange(lo as int, hi as int) =~= seq![first, second]);
                }
                (BvhChild::Leaf(first), BvhChild::Leaf(second))
            } else {
                order.set(lo, second);
                order.set(lo + 1, first);
                proof {
                    let range = start.subrange(lo as int, hi as int);
                    lemma_exchange_keeps_elements(range, 0, 1);
                    assert(order@.subrange(lo as int, hi as int) =~= range.update(0, range[1]).update(
                        1,
                        range[0],
                    ));
                    assert(order@.subrange(lo as int, hi as int) =~= seq![second, first]);
                }
                (BvhChild::Leaf(second), BvhChild::Leaf(first))
            }
        } else {
            sort_range(entries, order, lo, hi, axis);
            let ghost sorted = order@;
            let mid = lo + len / 2;
            proof {
                lemma_rearranged_keeps_distinct(
                    start.subrange(lo as int, hi as int),
                    sorted.subrange(lo as int, hi as int),
                );
                lemma_adjoining_ranges(sorted, lo as int, mid as int, hi as int);
                let whole = sorted.subrange(lo as int, hi as int);
                assert(sorted.subrange(lo as int, mid as int) =~= whole.subrange(0, mid - lo));
                assert(sorted.subrange(mid as int, hi as int) =~= whole.subrange(
                    mid - lo,
                    hi - lo,
                ));
            }
            let l = Self::build(rng, entries, order, lo, mid);
            let ghost halfway = order@;
            proof {
                assert(halfway.subrange(mid as int, hi as int) =~= sorted.subrange(
                    mid as int,
                    hi as int,
                ));
            }
            let r = Self::build(rng, entries, order, mid, hi);
            proof {
                assert(order@.subrange(lo as int, mid as int) =~= halfway.subrange(
                    lo as int,
                    mid as int,
                ));
                lemma_adjoining_ranges(order@, lo as int, mid as int, hi as int);
                if keys_are_numbers(entries@) {
                    assert forall|i: int, j: int|
                        0 <= i < l.items().len() && 0 <= j < r.items().len() implies !spec_precedes(
                        entries@[(#[trigger] r.items()[j]) as int].sort_box,
                        entries@[(#[trigger] l.items()[i]) as int].sort_box,
                        axis,
                    ) by {
                        let a = lemma_rearranged_has_source(
                            sorted.subrange(lo as int, mid as int),
                            order@.subrange(lo as int, mid as int),
                            i,
                        );
                        let b = lemma_rearranged_has_source(
                            sorted.subrange(mid as int, hi as int),
                            order@.subrange(mid as int, hi as int),
                            j,
                        );
                        assert(sorted[lo + a] == l.items()[i]);
                        assert(sorted[mid + b] == r.items()[j]);
                    }
                }
            }
            (BvhChild::Node(Box::new(l)), BvhChild::Node(Box::new(r)))
        };
        let box_left = left.bounding_box(entries);
        let box_right = right.bounding_box(entries);
        let node = BVHNode { left, right, out_box: box_left.union(&box_right) };
        proof {
            if keys_are_numbers(entries@) {
                assert(node.split_on(entries@, axis));
            }
            if len == 2 {
                assert(node.paired_on(entries@, start[lo as int], start[lo + 1], axis));
            }
        }
        node
    }

    /// Builds the hierarchy over the primitives that `entries` describe, which
    /// must be at least one.
    ///
    /// Every node draws one of the three axes. A single primitive becomes both
    /// children of its node; two become its children in the order of their
    /// sort keys on the axis, the second first unless the first comes strictly
    /// before it; more are sorted by their keys, split in the middle and built
    /// into two nodes. Every node's box is the union of its children's boxes.
    pub fn new(rng: &mut Rng, entries: &Vec<BvhEntry>) -> (node: BVHNode)
        requires
            entries@.len() > 0,
        ensures
            node.built_over(entries@),
    {
        let n = entries.len();
        let mut order: Vec<usize> = Vec::new();
        let mut i: usize = 0;
        while i < n
            invariant
                i <= n,
                n == entries@.len(),
                order@ =~= indices(i as nat),
            decreases n - i,
        {
            order.push(i);
            i = i + 1;
        }
        proof {
            assert(order@.subrange(0, n as int) =~= order@);
        }
        let node = Self::build(rng, entries, &mut order, 0, n);
        proof {
            assert(order@.subrange(0, n as int) =~= order@);
        }
        node
    }
}

/// Asks every member of `hlist` for its box at time zero and for its box over
/// `[time0, time1]`. Gives nothing as soon as a member has no box.
pub fn entries_of<H: Hittable>(
    hlist: &HittableList<H>,
    time0: Scalar,
    time1: Scalar,
) -> (res: Option<Vec<BvhEntry>>)
    ensures
        match res {
            Some(entries) => describes(hlist@, time0, time1, entries@),
            None => exists|i: int|
                0 <= i < hlist@.len() && #[trigger] may_lack_box(hlist@[i], time0, time1),
        },
{
    let mut entries: Vec<BvhEntry> = Vec::new();
    let mut i: usize = 0;
    while i < hlist.len()
        invariant
            i <= hlist@.len(),
            describes(hlist@.take(i as int), time0, time1, entries@),
        decreases hlist@.len() - i,
    {
        let obj = hlist.get(i);
        let sort_box = match obj.bounding_box(Scalar::zero(), Scalar::zero()) {
            Some(b) => b,
            None => {
                proof {
                    assert(may_lack_box(hlist@[i as int], time0, time1));
                }
                return None;
            },
        };
        let bound = match obj.bounding_box(time0, time1) {
            Some(b) => b,
            None => {
                proof {
                    assert(may_lack_box(hlist@[i as int], time0, time1));
                }
                return None;
            },
        };
        entries.push(BvhEntry { sort_box, bound });
        i = i + 1;
    }
    proof {
        assert(hlist@.take(hlist@.len() as int) =~= hlist@);
    }
    Some(entries)
}

impl BVHNode {
    /// Builds the hierarchy over the members of `hlist`, for the time range
    /// `[time0, time1]`, with a generator of its own. The leaves name the
    /// members by their positions. Gives nothing for the empty list and for a
    /// list with a member that has no box.
    pub fn from_hittable_list<H: Hittable>(
        hlist: &HittableList<H>,
        time0: Scalar,
        time1: Scalar,
    ) -> (res: Option<BVHNode>)
        ensures
            match res {
                Some(node) => exists|entries: Seq<BvhEntry>|
                    describes(hlist@, time0, time1, entries) && #[trigger] node.built_over(entries),
                None => hlist@.len() == 0 || exists|i: int|
                    0 <= i < hlist@.len() && #[trigger] may_lack_box(hlist@[i], time0, time1),
            },
            hlist@.len() == 0 ==> res is None,
    {
        if hlist.len() == 0 {
            return None;
        }
        match entries_of(hlist, time0, time1) {
            Some(entries) => {
                let mut rng = thread_rng();
                let node = Self::new(&mut rng, &entries);
                Some(node)
            },
            None => None,
        }
    }
}

} // verus!
