//! The bounding-volume hierarchy: a binary tree over the indices of a list of
//! primitives, built once by sorting and halving, and never changed after.

use vstd::prelude::*;
use std::cmp::Ordering;
use crate::aabb::{Slab, AABB};
use crate::hittable::{HitRecord, Hittable, Nearest};
use crate::bvh_build::{describes, entries_of, may_lack_box};
use crate::hittable_list::HittableList;
use crate::random::Rng;
use crate::ray::Ray;
use crate::scalar::Scalar;

verus! {

/// What the hierarchy needs to know of one primitive: the box by which it is
/// sorted, which is its box at time zero, and the box that bounds it over the
/// time range that the hierarchy is built for.
#[derive(Clone, Copy, Debug)]
pub struct BvhEntry {
    pub sort_box: AABB,
    pub bound: AABB,
}

/// A child of a node: a primitive, named by its index, or another node.
#[derive(Debug)]
pub enum BvhChild {
    Leaf(usize),
    Node(Box<BVHNode>),
}

/// A node of the hierarchy, with the box that bounds both children.
#[derive(Debug)]
pub struct BVHNode {
    pub left: BvhChild,
    pub right: BvhChild,
    pub out_box: AABB,
}

/// The coordinate by which a box is sorted on `axis`: its lower corner's.
pub open spec fn sort_key(b: AABB, axis: usize) -> Scalar {
    b.min.spec_axis(axis)
}

/// Whether box `a` comes strictly before box `b` on `axis`.
pub open spec fn spec_precedes(a: AABB, b: AABB, axis: usize) -> bool {
    sort_key(a, axis).spec_lt(sort_key(b, axis))
}

/// Whether no sort key of any entry is NaN, so that the keys on each axis are
/// totally ordered.
pub open spec fn keys_are_numbers(entries: Seq<BvhEntry>) -> bool {
    forall|i: int| 0 <= i < entries.len() ==> (#[trigger] entries[i]).sort_box.min.is_number()
}

/// The indices `0, 1, .., n - 1`.
pub open spec fn indices(n: nat) -> Seq<usize> {
    Seq::new(n, |i: int| i as usize)
}

impl BvhChild {
    /// The primitives below the child, from left to right.
    pub open spec fn items(self) -> Seq<usize>
        decreases self,
    {
        match self {
            BvhChild::Leaf(i) => seq![i],
            BvhChild::Node(node) => node.items(),
        }
    }

    /// The box that bounds the child: a primitive's own, a node's cached one.
    pub open spec fn bound(self, entries: Seq<BvhEntry>) -> AABB {
        match self {
            BvhChild::Leaf(i) => entries[i as int].bound,
            BvhChild::Node(node) => node.out_box,
        }
    }
}

impl BVHNode {
    /// The primitives below the node, from left to right. A node over a single
    /// primitive holds it as both children, and lists it once.
    pub open spec fn items(self) -> Seq<usize>
        decreases self,
    {
        if self.is_single() {
            self.left.items()
        } else {
            self.left.items() + self.right.items()
        }
    }

    /// Whether both children are the same primitive.
    pub open spec fn is_single(self) -> bool {
        match (self.left, self.right) {
            (BvhChild::Leaf(a), BvhChild::Leaf(b)) => a == b,
            _ => false,
        }
    }

    /// Whether every leaf names an entry, and every node's box is the union of
    /// its children's boxes.
    pub open spec fn bounded(self, entries: Seq<BvhEntry>) -> bool
        decreases self,
    {
        &&& self.out_box == self.left.bound(entries).spec_union(self.right.bound(entries))
        &&& match self.left {
            BvhChild::Leaf(i) => i < entries.len(),
            BvhChild::Node(node) => node.bounded(entries),
        }
        &&& match self.right {
            BvhChild::Leaf(i) => i < entries.len(),
            BvhChild::Node(node) => node.bounded(entries),
        }
    }

    /// Whether the tree has the shape that halving gives: one or two
    /// primitives are leaves of their node, and more are split in the middle
    /// into two nodes, the left one taking the smaller half.
    pub open spec fn halved(self) -> bool
        decreases self,
    {
        match (self.left, self.right) {
            (BvhChild::Leaf(a), BvhChild::Leaf(b)) => true,
            (BvhChild::Node(l), BvhChild::Node(r)) => {
                let n = self.items().len();
                &&& n > 2
                &&& l.items().len() == n / 2
                &&& r.items().len() == n - n / 2
                &&& l.halved()
                &&& r.halved()
            },
            _ => false,
        }
    }

    /// Whether no primitive on the right comes strictly before one on the
    /// left on `axis`.
    pub open spec fn split_on(self, entries: Seq<BvhEntry>, axis: usize) -> bool {
        forall|i: int, j: int|
            0 <= i < self.left.items().len() && 0 <= j < self.right.items().len()
                ==> !spec_precedes(
                entries[(#[trigger] self.right.items()[j]) as int].sort_box,
                entries[(#[trigger] self.left.items()[i]) as int].sort_box,
                axis,
            )
    }

    /// Whether every node is split on one of the three axes.
    pub open spec fn ordered(self, entries: Seq<BvhEntry>) -> bool
        decreases self,
    {
        &&& self.split_on(entries, 0) || self.split_on(entries, 1) || self.split_on(entries, 2)
        &&& match self.left {
            BvhChild::Leaf(i) => true,
            BvhChild::Node(node) => node.ordered(entries),
        }
        &&& match self.right {
            BvhChild::Leaf(i) => true,
            BvhChild::Node(node) => node.ordered(entries),
        }
    }
}

impl BVHNode {
    /// Whether the node holds the primitives `first` and `second` as its two
    /// leaves, in the order of their sort keys on `axis`: `first` on the left
    /// where it comes strictly before `second`, and on the right in every
    /// other case, that of equal keys included.
    pub open spec fn paired_on(
        self,
        entries: Seq<BvhEntry>,
        first: usize,
        second: usize,
        axis: usize,
    ) -> bool {
        if spec_precedes(entries[first as int].sort_box, entries[second as int].sort_box, axis) {
            self.left == BvhChild::Leaf(first) && self.right == BvhChild::Leaf(second)
        } else {
            self.left == BvhChild::Leaf(second) && self.right == BvhChild::Leaf(first)
        }
    }

    /// Whether the node holds `first` and `second` in the order of their sort
    /// keys on one of the three axes.
    pub open spec fn paired(self, entries: Seq<BvhEntry>, first: usize, second: usize) -> bool {
        ||| self.paired_on(entries, first, second, 0)
        ||| self.paired_on(entries, first, second, 1)
        ||| self.paired_on(entries, first, second, 2)
    }

    /// Whether the tree is the hierarchy over the primitives that `entries`
    /// describe: every primitive is below exactly one place of the tree, the
    /// boxes are the unions of the boxes below them, the tree has the shape
    /// that halving gives, and, where the sort keys are numbers, every node is
    /// split on an axis. A single primitive is both children of the root, and
    /// two are its children in the order of their keys on an axis.
    pub open spec fn built_over(self, entries: Seq<BvhEntry>) -> bool {
        &&& self.items().to_multiset() =~= indices(entries.len()).to_multiset()
        &&& self.bounded(entries)
        &&& self.halved()
        &&& keys_are_numbers(entries) ==> self.ordered(entries)
        &&& entries.len() == 1 ==> self.left == BvhChild::Leaf(0) && self.right == BvhChild::Leaf(0)
        &&& entries.len() == 2 ==> self.paired(entries, 0, 1)
    }
}

/// Whether box `a` comes strictly before box `b` on `axis`.
#[verifier::when_used_as_spec(spec_precedes_ref)]
pub fn precedes(a: &AABB, b: &AABB, axis: usize) -> (before: bool)
    requires
        axis < 3,
    ensures
        before == spec_precedes(*a, *b, axis),
{
    a.min.axis(axis).lt(b.min.axis(axis))
}

pub open spec fn spec_precedes_ref(a: &AABB, b: &AABB, axis: usize) -> bool {
    spec_precedes(*a, *b, axis)
}

impl BvhChild {
    /// The box that bounds the child.
    pub fn bounding_box(&self, entries: &Vec<BvhEntry>) -> (b: AABB)
        requires
            self matches BvhChild::Leaf(i) ==> i < entries@.len(),
        ensures
            b == self.bound(entries@),
    {
        match self {
            BvhChild::Leaf(i) => entries[*i].bound,
            BvhChild::Node(node) => node.out_box,
        }
    }
}

impl BvhChild {
    /// Whether every leaf below the child names one of `n` primitives.
    pub open spec fn within(self, n: nat) -> bool
        decreases self,
    {
        match self {
            BvhChild::Leaf(i) => i < n,
            BvhChild::Node(node) => node.within(n),
        }
    }

    /// Whether a search below the child, with the upper limit `t_max`, may
    /// answer `rec`: a primitive answers for itself, a node by its own search.
    pub open spec fn traced<H: Hittable, S: Fn(AABB, Ray) -> [Slab; 3]>(
        self,
        prims: Seq<H>,
        slabs_of: S,
        r: Ray,
        t_min: Scalar,
        t_max: Scalar,
        rec: Option<HitRecord<H::Mat>>,
    ) -> bool
        decreases self, 1nat,
    {
        match self {
            BvhChild::Leaf(i) => prims[i as int].admits_hit(r, t_min, t_max, rec),
            BvhChild::Node(node) => node.traced(prims, slabs_of, r, t_min, t_max, rec),
        }
    }
}

impl BVHNode {
    /// Whether every leaf names one of `n` primitives.
    pub open spec fn within(self, n: nat) -> bool
        decreases self,
    {
        self.left.within(n) && self.right.within(n)
    }

    /// Whether a search of the node may answer `rec`. `slabs_of` gives the
    /// crossings of the ray with the node's box. Where the slab test fails
    /// there is no hit. Otherwise the left child is searched up to `t_max`,
    /// the right child up to the left hit's parameter if there is one, and a
    /// hit on the right is kept before one on the left.
    pub open spec fn traced<H: Hittable, S: Fn(AABB, Ray) -> [Slab; 3]>(
        self,
        prims: Seq<H>,
        slabs_of: S,
        r: Ray,
        t_min: Scalar,
        t_max: Scalar,
        rec: Option<HitRecord<H::Mat>>,
    ) -> bool
        decreases self, 0nat,
    {
        exists|slabs: [Slab; 3], first: Option<HitRecord<H::Mat>>, second: Option<HitRecord<H::Mat>>|
            {
                &&& #[trigger] slabs_of.ensures((self.out_box, r), slabs)
                &&& if AABB::spec_hit(slabs@, t_min, t_max) {
                    &&& self.left.traced(prims, slabs_of, r, t_min, t_max, first)
                    &&& self.right.traced(
                        prims,
                        slabs_of,
                        r,
                        t_min,
                        Nearest::<H::Mat>::spec_start(t_max).spec_offer(first).limit,
                        second,
                    )
                    &&& rec == (#[trigger] Nearest::<H::Mat>::spec_start(t_max).spec_offer(
                        first,
                    ).spec_offer(second)).best
                } else {
                    rec is None
                }
            }
    }

    /// Orders two boxes by their lower corners on the axis `AXIS`, for
    /// sorting: `Less` where the first comes strictly before the second, and
    /// `Greater` in every other case, that of equal corners included.
    pub fn compare<const AXIS: usize>(a: &AABB, b: &AABB) -> (o: Ordering)
        requires
            AXIS < 3,
        ensures
            spec_precedes(*a, *b, AXIS) ==> o == Ordering::Less,
            !spec_precedes(*a, *b, AXIS) ==> o == Ordering::Greater,
    {
        if precedes(a, b, AXIS) {
            Ordering::Less
        } else {
            Ordering::Greater
        }
    }

    /// Searches the hierarchy for the nearest hit of `r` with its parameter
    /// in `[t_min, t_max]`. `prims` are the primitives that the leaves name,
    /// and `slabs_of` computes the crossings of a ray with a box on the three
    /// axes.
    pub fn hit<H: Hittable, S: Fn(AABB, Ray) -> [Slab; 3]>(
        &self,
        prims: &Vec<H>,
        slabs_of: &S,
        r: &Ray,
        t_min: Scalar,
        t_max: Scalar,
    ) -> (rec: Option<HitRecord<H::Mat>>)
        requires
            self.within(prims@.len()),
            forall|b: AABB, q: Ray| slabs_of.requires((b, q)),
        ensures
            self.traced(prims@, *slabs_of, *r, t_min, t_max, rec),
        decreases self,
    {
        let slabs = slabs_of(self.out_box, *r);
        if !AABB::hit(&slabs, t_min, t_max) {
            proof {
                let none: Option<HitRecord<H::Mat>> = None;
                assert(slabs_of.ensures((self.out_box, *r), slabs));
                let start = Nearest::<H::Mat>::spec_start(t_max);
                assert(start.spec_offer(none).spec_offer(none).best is None);
            }
            return None;
        }
        let search = Nearest::start(t_max);
        let first = match &self.left {
            BvhChild::Leaf(i) => prims[*i].hit(r, t_min, search.limit),
            BvhChild::Node(node) => node.hit(prims, slabs_of, r, t_min, search.limit),
        };
        let search = search.offer(first);
        let second = match &self.right {
            BvhChild::Leaf(i) => prims[*i].hit(r, t_min, search.limit),
            BvhChild::Node(node) => node.hit(prims, slabs_of, r, t_min, search.limit),
        };
        let search = search.offer(second);
        search.best
    }
}

/// A hierarchy together with the primitives that its leaves name and with
/// the function that computes the crossings of a ray with a box: a hittable
/// object of its own.
pub struct Bvh<H: Hittable, S: Fn(AABB, Ray) -> [Slab; 3]> {
    root: BVHNode,
    prims: Vec<H>,
    slabs_of: S,
}

impl<H: Hittable, S: Fn(AABB, Ray) -> [Slab; 3]> Bvh<H, S> {
    #[verifier::type_invariant]
    spec fn valid(self) -> bool {
        &&& self.root.within(self.prims@.len())
        &&& forall|b: AABB, q: Ray| self.slabs_of.requires((b, q))
    }

    /// The root of the tree.
    pub closed spec fn root(&self) -> BVHNode {
        self.root
    }

    /// The primitives that the leaves name.
    pub closed spec fn primitives(&self) -> Seq<H> {
        self.prims@
    }

    /// The function that computes the crossings.
    pub closed spec fn crossings(&self) -> S {
        self.slabs_of
    }

    /// Builds the hierarchy over the members of `hlist`, for the time range
    /// `[time0, time1]`. `slabs_of` must accept every box and ray. Gives
    /// nothing for the empty list and for a list with a member that has no
    /// box.
    pub fn new(
        rng: &mut Rng,
        hlist: HittableList<H>,
        slabs_of: S,
        time0: Scalar,
        time1: Scalar,
    ) -> (res: Option<Self>)
        requires
            forall|b: AABB, q: Ray| slabs_of.requires((b, q)),
        ensures
            match res {
                Some(bvh) => {
                    &&& bvh.primitives() == hlist@
                    &&& bvh.crossings() == slabs_of
                    &&& exists|entries: Seq<BvhEntry>|
                        describes(hlist@, time0, time1, entries) && #[trigger] bvh.root().built_over(
                            entries,
                        )
                },
                None => hlist@.len() == 0 || exists|i: int|
                    0 <= i < hlist@.len() && #[trigger] may_lack_box(hlist@[i], time0, time1),
            },
            hlist@.len() == 0 ==> res is None,
    {
        if hlist.len() == 0 {
            return None;
        }
        match entries_of(&hlist, time0, time1) {
            Some(entries) => {
                let root = BVHNode::new(rng, &entries);
                let prims = hlist.into_vec();
                proof {
                    crate::agreement::lemma_built_is_within(root, entries@);
                }
                Some(Bvh { root, prims, slabs_of })
            },
            None => None,
        }
    }
}

impl<H: Hittable, S: Fn(AABB, Ray) -> [Slab; 3]> Hittable for Bvh<H, S> {
    type Mat = H::Mat;

    /// The outcome of a search from the root.
    open spec fn admits_hit(
        &self,
        r: Ray,
        t_min: Scalar,
        t_max: Scalar,
        rec: Option<HitRecord<H::Mat>>,
    ) -> bool {
        self.root().traced(self.primitives(), self.crossings(), r, t_min, t_max, rec)
    }

    /// The root's box, whatever the time range.
    open spec fn admits_box(&self, time0: Scalar, time1: Scalar, b: Option<AABB>) -> bool {
        b == Some(self.root().out_box)
    }

    fn hit(&self, r: &Ray, t_min: Scalar, t_max: Scalar) -> (rec: Option<HitRecord<H::Mat>>) {
        proof {
            use_type_invariant(self);
        }
        self.root.hit(&self.prims, &self.slabs_of, r, t_min, t_max)
    }

    fn bounding_box(&self, time0: Scalar, time1: Scalar) -> (b: Option<AABB>) {
        Some(self.root.out_box)
    }
}

/// Whether box `outer` holds box `inner`: both of its corners, and with them
/// all of it.
pub open spec fn holds(outer: AABB, inner: AABB) -> bool {
    outer.contains(inner.min) && outer.contains(inner.max)
}

/// The box of a node holds the box of every primitive below it, as long as
/// the primitives' boxes have their corners in order.
pub proof fn lemma_node_box_holds_items(node: BVHNode, entries: Seq<BvhEntry>, k: int)
    requires
        node.bounded(entries),
        forall|i: int| 0 <= i < entries.len() ==> (#[trigger] entries[i]).bound.ordered(),
        0 <= k < node.items().len(),
    ensures
        node.items()[k] < entries.len(),
        node.out_box.ordered(),
        holds(node.out_box, entries[node.items()[k] as int].bound),
    decreases node,
{
    let a = node.left.items();
    let b = node.right.items();
    let box_a = node.left.bound(entries);
    let box_b = node.right.bound(entries);
    lemma_child_box_is_ordered(node.left, entries);
    lemma_child_box_is_ordered(node.right, entries);
    let on_left = node.is_single() || k < a.len();
    let j = if on_left { k } else { k - a.len() };
    let child = if on_left { node.left } else { node.right };
    let inner = entries[child.items()[j] as int].bound;
    assert(node.items()[k] == child.items()[j]);
    match child {
        BvhChild::Leaf(i) => {
            assert(child.items() =~= seq![i]);
        },
        BvhChild::Node(below) => {
            lemma_node_box_holds_items(*below, entries, j);
        },
    }
    assert(holds(child.bound(entries), inner));
    crate::aabb::lemma_union_is_smallest(box_a, box_b, node.out_box, inner.min);
    crate::aabb::lemma_union_is_smallest(box_a, box_b, node.out_box, inner.max);
    crate::aabb::lemma_union_contains_corners(box_a, box_b, box_a.min);
}

/// The box of a child is in order where the primitives' boxes are.
pub proof fn lemma_child_box_is_ordered(child: BvhChild, entries: Seq<BvhEntry>)
    requires
        match child {
            BvhChild::Leaf(i) => i < entries.len(),
            BvhChild::Node(node) => node.bounded(entries),
        },
        forall|i: int| 0 <= i < entries.len() ==> (#[trigger] entries[i]).bound.ordered(),
    ensures
        child.bound(entries).ordered(),
    decreases child,
{
    match child {
        BvhChild::Leaf(i) => {},
        BvhChild::Node(node) => {
            lemma_child_box_is_ordered(node.left, entries);
            lemma_child_box_is_ordered(node.right, entries);
            let box_a = node.left.bound(entries);
            let box_b = node.right.bound(entries);
            crate::aabb::lemma_union_contains_corners(box_a, box_b, box_a.min);
        },
    }
}

} // verus!
