//! Why the hierarchy finds what the list finds: both return the nearest hit,
//! as long as every object answers a ray by its first hit and every box of
//! the hierarchy holds what is below it.

use vstd::prelude::*;
use crate::aabb::{Slab, AABB};
use crate::bvh::{indices, BVHNode, BvhChild, BvhEntry, Bvh};
use crate::hittable::{HitRecord, Hittable, Nearest};
use crate::hittable_list::{scanned, HittableList};
use crate::ray::Ray;
use crate::scalar::Scalar;

verus! {

/// What an object with the first hit `first` answers below the limit
/// `t_max`: that hit, if its parameter does not exceed the limit.
pub open spec fn answer<M>(first: Option<HitRecord<M>>, t_max: Scalar) -> Option<HitRecord<M>> {
    match first {
        Some(h) => if h.t.spec_le(t_max) {
            Some(h)
        } else {
            None
        },
        None => None,
    }
}

/// Whether the first hit of object `i` is the nearest of the first hits of
/// all `n` objects.
pub open spec fn leads<M>(first: spec_fn(int) -> Option<HitRecord<M>>, n: nat, i: int) -> bool {
    first(i) matches Some(a) && forall|k: int|
        0 <= k < n ==> (#[trigger] first(k) matches Some(c) ==> a.t.spec_le(c.t))
}

/// Whether the objects answer the ray `r` above `t_min` by their first hits:
/// object `i` has the first hit `first(i)`, or none, and answers with it
/// whenever the limit allows. The parameters of the hits are numbers, and
/// the nearest of them is alone at its parameter: objects farther off may
/// share theirs.
pub open spec fn answers_first<H: Hittable>(
    prims: Seq<H>,
    r: Ray,
    t_min: Scalar,
    first: spec_fn(int) -> Option<HitRecord<H::Mat>>,
) -> bool {
    &&& forall|i: int, t_max: Scalar, rec: Option<HitRecord<H::Mat>>|
        0 <= i < prims.len() && !t_max.nan() && #[trigger] prims[i].admits_hit(r, t_min, t_max, rec)
            ==> rec == answer(first(i), t_max)
    &&& forall|i: int|
        0 <= i < prims.len() ==> (#[trigger] first(i) matches Some(h) ==> !h.t.nan())
    &&& forall|i: int, j: int|
        0 <= i < prims.len() && 0 <= j < prims.len() && i != j && #[trigger] leads(
            first,
            prims.len(),
            i,
        ) ==> (#[trigger] first(j) matches Some(b) ==> b.t.rank() != first(i)->Some_0.t.rank())
}

/// Whether none of the objects that `items` names has its first hit below
/// the limit.
pub open spec fn none_within<M>(
    first: spec_fn(int) -> Option<HitRecord<M>>,
    items: Seq<usize>,
    t_max: Scalar,
) -> bool {
    forall|k: int| 0 <= k < items.len() ==> answer(first(#[trigger] items[k] as int), t_max) is None
}

/// Whether `rec` is the nearest of the first hits, below the limit, of the
/// objects that `items` names: nothing where there is none.
pub open spec fn is_nearest<M>(
    first: spec_fn(int) -> Option<HitRecord<M>>,
    items: Seq<usize>,
    t_max: Scalar,
    rec: Option<HitRecord<M>>,
) -> bool {
    match rec {
        None => none_within(first, items, t_max),
        Some(h) => {
            &&& h.t.spec_le(t_max)
            &&& exists|k: int| 0 <= k < items.len() && first(#[trigger] items[k] as int) == Some(h)
            &&& forall|k: int|
                0 <= k < items.len() ==> (answer(first(#[trigger] items[k] as int), t_max) matches Some(
                    g,
                ) ==> h.t.spec_le(g.t))
        },
    }
}

/// Whether every box of the hierarchy holds what is below it: where the slab
/// test of a node's box fails for a limit, no object below the node has its
/// first hit below that limit.
pub open spec fn boxes_hold<M, S: Fn(AABB, Ray) -> [Slab; 3]>(
    node: BVHNode,
    slabs_of: S,
    r: Ray,
    t_min: Scalar,
    first: spec_fn(int) -> Option<HitRecord<M>>,
) -> bool
    decreases node,
{
    &&& forall|slabs: [Slab; 3], t_max: Scalar|
        #[trigger] slabs_of.ensures((node.out_box, r), slabs) && !t_max.nan() && !(
        #[trigger] AABB::spec_hit(slabs@, t_min, t_max)) ==> none_within(
            first,
            node.items(),
            t_max,
        )
    &&& match node.left {
        BvhChild::Leaf(_) => true,
        BvhChild::Node(l) => boxes_hold(*l, slabs_of, r, t_min, first),
    }
    &&& match node.right {
        BvhChild::Leaf(_) => true,
        BvhChild::Node(l) => boxes_hold(*l, slabs_of, r, t_min, first),
    }
}

/// The limit that a search leaves after the answer `rec`.
pub open spec fn limit_after<M>(t_max: Scalar, rec: Option<HitRecord<M>>) -> Scalar {
    Nearest::<M>::spec_start(t_max).spec_offer(rec).limit
}

/// An object's answer is the nearest hit among itself.
pub proof fn lemma_answer_is_nearest<M>(
    first: spec_fn(int) -> Option<HitRecord<M>>,
    i: usize,
    t_max: Scalar,
)
    requires
        first(i as int) matches Some(h) ==> !h.t.nan(),
        !t_max.nan(),
    ensures
        is_nearest(first, seq![i], t_max, answer(first(i as int), t_max)),
{
    let items = seq![i];
    assert(items[0] == i);
}

/// The nearest hit depends on the objects named, not on their order or on
/// how often one is named.
pub proof fn lemma_nearest_of_same_objects<M>(
    first: spec_fn(int) -> Option<HitRecord<M>>,
    a: Seq<usize>,
    b: Seq<usize>,
    t_max: Scalar,
    rec: Option<HitRecord<M>>,
)
    requires
        is_nearest(first, a, t_max, rec),
        forall|k: int| 0 <= k < a.len() ==> b.contains(#[trigger] a[k]),
        forall|k: int| 0 <= k < b.len() ==> a.contains(#[trigger] b[k]),
    ensures
        is_nearest(first, b, t_max, rec),
{
    assert forall|k: int| 0 <= k < b.len() implies (rec matches Some(h) ==> (answer(
        first(#[trigger] b[k] as int),
        t_max,
    ) matches Some(g) ==> h.t.spec_le(g.t))) && (rec is None ==> answer(
        first(b[k] as int),
        t_max,
    ) is None) by {
        assert(a.contains(b[k]));
        let j = choose|j: int| 0 <= j < a.len() && a[j] == b[k];
        assert(a[j] == b[k]);
    }
    if let Some(h) = rec {
        let k = choose|k: int| 0 <= k < a.len() && first(#[trigger] a[k] as int) == Some(h);
        assert(b.contains(a[k]));
        let j = choose|j: int| 0 <= j < b.len() && b[j] == a[k];
        assert(first(b[j] as int) == Some(h));
    }
}

/// A search of one group after another finds the nearest hit of both: the
/// second group is searched below the first group's hit, and its hit is kept
/// before the first group's.
pub proof fn lemma_nearest_of_two_groups<M>(
    first: spec_fn(int) -> Option<HitRecord<M>>,
    a: Seq<usize>,
    b: Seq<usize>,
    t_max: Scalar,
    found_a: Option<HitRecord<M>>,
    found_b: Option<HitRecord<M>>,
)
    requires
        !t_max.nan(),
        forall|k: int|
            0 <= k < a.len() ==> (first(#[trigger] a[k] as int) matches Some(h) ==> !h.t.nan()),
        forall|k: int|
            0 <= k < b.len() ==> (first(#[trigger] b[k] as int) matches Some(h) ==> !h.t.nan()),
        is_nearest(first, a, t_max, found_a),
        is_nearest(first, b, limit_after(t_max, found_a), found_b),
    ensures
        is_nearest(
            first,
            a + b,
            t_max,
            Nearest::<M>::spec_start(t_max).spec_offer(found_a).spec_offer(found_b).best,
        ),
        !limit_after(t_max, found_a).nan(),
{
    let both = a + b;
    let kept = Nearest::<M>::spec_start(t_max).spec_offer(found_a).spec_offer(found_b).best;
    let limit = limit_after(t_max, found_a);
    if let Some(h) = found_a {
        let k = choose|k: int| 0 <= k < a.len() && first(#[trigger] a[k] as int) == Some(h);
        assert(!h.t.nan());
        assert(both[k] == a[k]);
    }
    if let Some(h) = found_b {
        let k = choose|k: int| 0 <= k < b.len() && first(#[trigger] b[k] as int) == Some(h);
        assert(!h.t.nan());
        assert(both[a.len() + k] == b[k]);
    }
    assert forall|k: int| 0 <= k < both.len() implies (kept matches Some(h) ==> (answer(
        first(#[trigger] both[k] as int),
        t_max,
    ) matches Some(g) ==> h.t.spec_le(g.t))) && (kept is None ==> answer(
        first(both[k] as int),
        t_max,
    ) is None) by {
        if k < a.len() {
            assert(both[k] == a[k]);
        } else {
            assert(both[k] == b[k - a.len()]);
        }
    }
}

/// A search of the hierarchy finds the nearest hit of the objects below it.
pub proof fn lemma_hierarchy_finds_nearest<H: Hittable, S: Fn(AABB, Ray) -> [Slab; 3]>(
    node: BVHNode,
    prims: Seq<H>,
    slabs_of: S,
    r: Ray,
    t_min: Scalar,
    t_max: Scalar,
    first: spec_fn(int) -> Option<HitRecord<H::Mat>>,
    rec: Option<HitRecord<H::Mat>>,
)
    requires
        node.within(prims.len()),
        answers_first(prims, r, t_min, first),
        boxes_hold(node, slabs_of, r, t_min, first),
        !t_max.nan(),
        node.traced(prims, slabs_of, r, t_min, t_max, rec),
    ensures
        is_nearest(first, node.items(), t_max, rec),
    decreases node,
{
    let (slabs, found_l, found_r) = choose|
        slabs: [Slab; 3],
        found_l: Option<HitRecord<H::Mat>>,
        found_r: Option<HitRecord<H::Mat>>,
    |
        {
            &&& #[trigger] slabs_of.ensures((node.out_box, r), slabs)
            &&& if AABB::spec_hit(slabs@, t_min, t_max) {
                &&& node.left.traced(prims, slabs_of, r, t_min, t_max, found_l)
                &&& node.right.traced(
                    prims,
                    slabs_of,
                    r,
                    t_min,
                    Nearest::<H::Mat>::spec_start(t_max).spec_offer(found_l).limit,
                    found_r,
                )
                &&& rec == (#[trigger] Nearest::<H::Mat>::spec_start(t_max).spec_offer(
                    found_l,
                ).spec_offer(found_r)).best
            } else {
                rec is None
            }
        };
    if AABB::spec_hit(slabs@, t_min, t_max) {
        let a = node.left.items();
        let b = node.right.items();
        lemma_items_are_within(node, prims.len());
        lemma_child_finds_nearest(node.left, prims, slabs_of, r, t_min, t_max, first, found_l);
        let limit = limit_after(t_max, found_l);
        if let Some(h) = found_l {
            let k = choose|k: int| 0 <= k < a.len() && first(#[trigger] a[k] as int) == Some(h);
            assert(!h.t.nan());
        }
        lemma_child_finds_nearest(node.right, prims, slabs_of, r, t_min, limit, first, found_r);
        lemma_nearest_of_two_groups(first, a, b, t_max, found_l, found_r);
        if node.is_single() {
            assert forall|k: int| 0 <= k < (a + b).len() implies a.contains(
                #[trigger] (a + b)[k],
            ) by {
                assert(a[0] == (a + b)[k]);
            }
            assert forall|k: int| 0 <= k < a.len() implies (a + b).contains(#[trigger] a[k]) by {
                assert((a + b)[k] == a[k]);
            }
            lemma_nearest_of_same_objects(first, a + b, a, t_max, rec);
        }
    }
}

/// Every object that a hierarchy names is one of the `n` that it is within.
pub proof fn lemma_items_are_within(node: BVHNode, n: nat)
    requires
        node.within(n),
    ensures
        forall|k: int| 0 <= k < node.items().len() ==> (#[trigger] node.items()[k]) < n,
        forall|k: int| 0 <= k < node.left.items().len() ==> (#[trigger] node.left.items()[k]) < n,
        forall|k: int|
            0 <= k < node.right.items().len() ==> (#[trigger] node.right.items()[k]) < n,
    decreases node,
{
    let a = node.left.items();
    let b = node.right.items();
    assert forall|k: int| 0 <= k < a.len() implies (#[trigger] a[k]) < n by {
        match node.left {
            BvhChild::Leaf(i) => {
                assert(a =~= seq![i]);
            },
            BvhChild::Node(l) => {
                lemma_items_are_within(*l, n);
                assert(a == l.items());
            },
        }
    }
    assert forall|k: int| 0 <= k < b.len() implies (#[trigger] b[k]) < n by {
        match node.right {
            BvhChild::Leaf(i) => {
                assert(b =~= seq![i]);
            },
            BvhChild::Node(l) => {
                lemma_items_are_within(*l, n);
                assert(b == l.items());
            },
        }
    }
    let all = node.items();
    assert forall|k: int| 0 <= k < all.len() implies (#[trigger] all[k]) < n by {
        if node.is_single() {
            assert(all == a);
        } else {
            assert(all == a + b);
            if k < a.len() {
                assert(all[k] == a[k]);
            } else {
                assert(all[k] == b[k - a.len()]);
            }
        }
    }
}

/// A search below a child finds the nearest hit of the objects below it.
pub proof fn lemma_child_finds_nearest<H: Hittable, S: Fn(AABB, Ray) -> [Slab; 3]>(
    child: BvhChild,
    prims: Seq<H>,
    slabs_of: S,
    r: Ray,
    t_min: Scalar,
    t_max: Scalar,
    first: spec_fn(int) -> Option<HitRecord<H::Mat>>,
    rec: Option<HitRecord<H::Mat>>,
)
    requires
        child.within(prims.len()),
        answers_first(prims, r, t_min, first),
        child matches BvhChild::Node(node) ==> boxes_hold(*node, slabs_of, r, t_min, first),
        !t_max.nan(),
        child.traced(prims, slabs_of, r, t_min, t_max, rec),
    ensures
        is_nearest(first, child.items(), t_max, rec),
        forall|k: int|
            0 <= k < child.items().len() ==> (first(#[trigger] child.items()[k] as int) matches Some(
                h,
            ) ==> !h.t.nan()),
    decreases child,
{
    match child {
        BvhChild::Leaf(i) => {
            assert(prims[i as int].admits_hit(r, t_min, t_max, rec));
            lemma_answer_is_nearest(first, i, t_max);
        },
        BvhChild::Node(node) => {
            lemma_items_are_within(*node, prims.len());
            lemma_hierarchy_finds_nearest(*node, prims, slabs_of, r, t_min, t_max, first, rec);
        },
    }
}

/// A search of the list finds the nearest hit of its members, and leaves the
/// limit at that hit's parameter.
pub proof fn lemma_list_finds_nearest<H: Hittable>(
    prims: Seq<H>,
    n: nat,
    r: Ray,
    t_min: Scalar,
    t_max: Scalar,
    first: spec_fn(int) -> Option<HitRecord<H::Mat>>,
    end: Nearest<H::Mat>,
)
    requires
        n <= prims.len() <= usize::MAX,
        answers_first(prims, r, t_min, first),
        !t_max.nan(),
        scanned(prims.take(n as int), r, t_min, t_max, end),
    ensures
        is_nearest(first, indices(n), t_max, end.best),
        end.limit == limit_after(t_max, end.best),
        !end.limit.nan(),
    decreases n,
{
    let objs = prims.take(n as int);
    if n == 0 {
    } else {
        let (before, found) = choose|before: Nearest<H::Mat>, found: Option<HitRecord<H::Mat>>|
            {
                &&& scanned(objs.drop_last(), r, t_min, t_max, before)
                &&& objs.last().admits_hit(r, t_min, before.limit, found)
                &&& end == #[trigger] before.spec_offer(found)
            };
        let m = (n - 1) as nat;
        assert(objs.drop_last() =~= prims.take(m as int));
        assert(objs.last() == prims[m as int]);
        lemma_list_finds_nearest(prims, m, r, t_min, t_max, first, before);
        assert(prims[m as int].admits_hit(r, t_min, before.limit, found));
        lemma_answer_is_nearest(first, m as usize, before.limit);
        let a = indices(m);
        let b = seq![m as usize];
        assert(a + b =~= indices(n));
        assert forall|k: int| 0 <= k < a.len() implies (first(#[trigger] a[k] as int) matches Some(
            h,
        ) ==> !h.t.nan()) by {
            assert(a[k] == k);
        }
        assert(b[0] == m);
        lemma_nearest_of_two_groups(first, a, b, t_max, before.best, found);
    }
}

/// A hierarchy over all members of a list returns what the list returns.
///
/// This holds for objects that answer a ray by their first hit, the nearest
/// of which is alone at its parameter, under boxes that hold what is below
/// them, and for a limit that is a number. The hit is then the same in every part: the
/// material, the parameter, the point and the normal.
pub proof fn lemma_hierarchy_agrees_with_list<H: Hittable, S: Fn(AABB, Ray) -> [Slab; 3]>(
    node: BVHNode,
    prims: Seq<H>,
    slabs_of: S,
    r: Ray,
    t_min: Scalar,
    t_max: Scalar,
    first: spec_fn(int) -> Option<HitRecord<H::Mat>>,
    from_hierarchy: Option<HitRecord<H::Mat>>,
    from_list: Option<HitRecord<H::Mat>>,
)
    requires
        prims.len() <= usize::MAX,
        node.items().to_multiset() =~= indices(prims.len()).to_multiset(),
        answers_first(prims, r, t_min, first),
        boxes_hold(node, slabs_of, r, t_min, first),
        !t_max.nan(),
        node.traced(prims, slabs_of, r, t_min, t_max, from_hierarchy),
        exists|end: Nearest<H::Mat>|
            #[trigger] scanned(prims, r, t_min, t_max, end) && from_list == end.best,
    ensures
        from_hierarchy == from_list,
{
    let n = prims.len();
    let all = indices(n);
    let items = node.items();
    items.to_multiset_ensures();
    all.to_multiset_ensures();
    assert forall|k: int| 0 <= k < items.len() implies all.contains(#[trigger] items[k]) by {
        assert(items.contains(items[k]));
        assert(items.to_multiset().count(items[k]) > 0);
    }
    assert forall|k: int| 0 <= k < all.len() implies items.contains(#[trigger] all[k]) by {
        assert(all.contains(all[k]));
        assert(all.to_multiset().count(all[k]) > 0);
    }
    lemma_named_are_within(node, n);
    lemma_hierarchy_finds_nearest(node, prims, slabs_of, r, t_min, t_max, first, from_hierarchy);
    lemma_nearest_of_same_objects(first, items, all, t_max, from_hierarchy);
    let end = choose|end: Nearest<H::Mat>|
        #[trigger] scanned(prims, r, t_min, t_max, end) && from_list == end.best;
    assert(prims.take(n as int) =~= prims);
    lemma_list_finds_nearest(prims, n, r, t_min, t_max, first, end);
    lemma_nearest_is_unique(prims, r, t_min, first, t_max, from_hierarchy, from_list);
}

/// A hierarchy whose items are all below `n` is within `n`.
pub proof fn lemma_named_are_within(node: BVHNode, n: nat)
    requires
        forall|k: int| 0 <= k < node.items().len() ==> (#[trigger] node.items()[k]) < n,
    ensures
        node.within(n),
    decreases node,
{
    let a = node.left.items();
    let b = node.right.items();
    let all = node.items();
    assert forall|k: int| 0 <= k < a.len() implies (#[trigger] a[k]) < n by {
        if node.is_single() {
            assert(all == a);
        } else {
            assert(all == a + b);
            assert(all[k] == a[k]);
        }
    }
    assert forall|k: int| 0 <= k < b.len() implies (#[trigger] b[k]) < n by {
        if node.is_single() {
            assert(all == a);
            assert(a =~= b);
        } else {
            assert(all == a + b);
            assert(all[a.len() + k] == b[k]);
        }
    }
    match node.left {
        BvhChild::Leaf(i) => {
            assert(a =~= seq![i]);
            assert(a[0] == i);
        },
        BvhChild::Node(l) => {
            assert(a == l.items());
            lemma_named_are_within(*l, n);
        },
    }
    match node.right {
        BvhChild::Leaf(i) => {
            assert(b =~= seq![i]);
            assert(b[0] == i);
        },
        BvhChild::Node(l) => {
            assert(b == l.items());
            lemma_named_are_within(*l, n);
        },
    }
}

/// Where the nearest of all first hits is alone at its parameter, there is
/// one nearest hit below a limit.
pub proof fn lemma_nearest_is_unique<H: Hittable>(
    prims: Seq<H>,
    r: Ray,
    t_min: Scalar,
    first: spec_fn(int) -> Option<HitRecord<H::Mat>>,
    t_max: Scalar,
    x: Option<HitRecord<H::Mat>>,
    y: Option<HitRecord<H::Mat>>,
)
    requires
        prims.len() <= usize::MAX,
        answers_first(prims, r, t_min, first),
        !t_max.nan(),
        is_nearest(first, indices(prims.len()), t_max, x),
        is_nearest(first, indices(prims.len()), t_max, y),
    ensures
        x == y,
{
    let n = prims.len();
    let items = indices(n);
    if let Some(h) = x {
        let i = choose|k: int| 0 <= k < items.len() && first(#[trigger] items[k] as int) == Some(h);
        assert(items[i] == i);
        assert(answer(first(i), t_max) == Some(h));
        if let Some(g) = y {
            let j = choose|k: int|
                0 <= k < items.len() && first(#[trigger] items[k] as int) == Some(g);
            assert(items[j] == j);
            assert(answer(first(j), t_max) == Some(g));
            assert(h.t.spec_le(g.t) && g.t.spec_le(h.t));
            if i != j {
                assert forall|k: int| 0 <= k < n implies (#[trigger] first(k) matches Some(c)
                    ==> h.t.spec_le(c.t)) by {
                    assert(items[k] == k);
                    if let Some(c) = first(k) {
                        assert(!c.t.nan());
                        if c.t.spec_le(t_max) {
                            assert(answer(first(items[k] as int), t_max) == Some(c));
                        }
                    }
                }
                assert(leads(first, n, i));
                assert(first(j) is Some);
            }
        }
    } else if let Some(g) = y {
        let j = choose|k: int| 0 <= k < items.len() && first(#[trigger] items[k] as int) == Some(g);
        assert(answer(first(items[j] as int), t_max) == Some(g));
    }
}

/// A hierarchy that was built over some entries names only those.
pub proof fn lemma_built_is_within(node: BVHNode, entries: Seq<BvhEntry>)
    requires
        node.built_over(entries),
        entries.len() <= usize::MAX,
    ensures
        node.within(entries.len()),
{
    let items = node.items();
    let all = indices(entries.len());
    items.to_multiset_ensures();
    all.to_multiset_ensures();
    assert forall|k: int| 0 <= k < items.len() implies (#[trigger] items[k]) < entries.len() by {
        assert(items.contains(items[k]));
        assert(all.to_multiset().count(items[k]) > 0);
        assert(all.contains(items[k]));
        let j = choose|j: int| 0 <= j < all.len() && all[j] == items[k];
        assert(all[j] == j);
    }
    lemma_named_are_within(node, entries.len());
}

/// A hierarchy and a list over the same objects admit the same answer to a
/// ray, under the conditions of `lemma_hierarchy_agrees_with_list`.
pub proof fn lemma_bvh_agrees_with_list<H: Hittable, S: Fn(AABB, Ray) -> [Slab; 3]>(
    bvh: Bvh<H, S>,
    list: HittableList<H>,
    r: Ray,
    t_min: Scalar,
    t_max: Scalar,
    first: spec_fn(int) -> Option<HitRecord<H::Mat>>,
    from_hierarchy: Option<HitRecord<H::Mat>>,
    from_list: Option<HitRecord<H::Mat>>,
)
    requires
        bvh.primitives() == list@,
        list@.len() <= usize::MAX,
        bvh.root().items().to_multiset() =~= indices(list@.len()).to_multiset(),
        answers_first(list@, r, t_min, first),
        boxes_hold(bvh.root(), bvh.crossings(), r, t_min, first),
        !t_max.nan(),
        bvh.admits_hit(r, t_min, t_max, from_hierarchy),
        list.admits_hit(r, t_min, t_max, from_list),
    ensures
        from_hierarchy == from_list,
{
    lemma_hierarchy_agrees_with_list(
        bvh.root(),
        list@,
        bvh.crossings(),
        r,
        t_min,
        t_max,
        first,
        from_hierarchy,
        from_list,
    );
}

} // verus!
