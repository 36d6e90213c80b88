//! Axis-aligned bounding boxes: union, containment and the slab test.

use vstd::prelude::*;
use crate::scalar::{Scalar, INFINITY_BITS, SIGN_BIT};
use crate::vec3::{Point, Vec3};

verus! {

/// An axis-aligned box, given by its two extreme corners.
#[derive(Clone, Copy, Debug)]
pub struct AABB {
    pub min: Point,
    pub max: Point,
}

/// Where a ray crosses the two planes that bound a box on one axis: the
/// reciprocal of the ray's direction on that axis, and the ray parameters at
/// the lower plane (`t0`) and the upper plane (`t1`).
#[derive(Clone, Copy, Debug)]
pub struct Slab {
    pub inv_d: Scalar,
    pub t0: Scalar,
    pub t1: Scalar,
}

impl Slab {
    /// The parameter interval `(t_min, t_max)` cut down to this slab: the
    /// crossings are taken in the order in which the ray meets them, the entry
    /// raises the lower limit and the exit lowers the upper one.
    pub open spec fn spec_clip(self, t_min: Scalar, t_max: Scalar) -> (Scalar, Scalar) {
        if self.inv_d.spec_lt(Scalar { bits: 0 }) {
            (self.t1.spec_max(t_min), self.t0.spec_min(t_max))
        } else {
            (self.t0.spec_max(t_min), self.t1.spec_min(t_max))
        }
    }

    /// Whether the slab bounds nothing: the ray runs along it, so that its
    /// entry is negative infinity or undefined and its exit positive infinity
    /// or undefined.
    pub open spec fn unbounded(self) -> bool {
        let entry = if self.inv_d.spec_lt(Scalar { bits: 0 }) {
            self.t1
        } else {
            self.t0
        };
        let exit = if self.inv_d.spec_lt(Scalar { bits: 0 }) {
            self.t0
        } else {
            self.t1
        };
        (entry.nan() || entry.bits == INFINITY_BITS + SIGN_BIT) && (exit.nan() || exit.bits
            == INFINITY_BITS)
    }

    pub fn new(inv_d: Scalar, t0: Scalar, t1: Scalar) -> (s: Slab)
        ensures
            s.inv_d == inv_d,
            s.t0 == t0,
            s.t1 == t1,
    {
        Slab { inv_d, t0, t1 }
    }

    #[verifier::when_used_as_spec(spec_clip)]
    pub fn clip(self, t_min: Scalar, t_max: Scalar) -> (limits: (Scalar, Scalar))
        ensures
            limits == self.spec_clip(t_min, t_max),
    {
        if self.inv_d.lt(Scalar::zero()) {
            (self.t1.max(t_min), self.t0.min(t_max))
        } else {
            (self.t0.max(t_min), self.t1.min(t_max))
        }
    }
}

impl AABB {
    /// Whether the corners are in order on every axis, as they are for every
    /// box that bounds something. No coordinate of such a box is NaN.
    pub open spec fn ordered(self) -> bool {
        &&& self.min.x.spec_le(self.max.x)
        &&& self.min.y.spec_le(self.max.y)
        &&& self.min.z.spec_le(self.max.z)
    }

    /// Whether `p` lies within the box on every axis, the faces included.
    pub open spec fn contains(self, p: Point) -> bool {
        &&& self.min.x.spec_le(p.x) && p.x.spec_le(self.max.x)
        &&& self.min.y.spec_le(p.y) && p.y.spec_le(self.max.y)
        &&& self.min.z.spec_le(p.z) && p.z.spec_le(self.max.z)
    }

    /// Whether `p` is one of the eight corners of the box.
    pub open spec fn is_corner(self, p: Point) -> bool {
        &&& p.x == self.min.x || p.x == self.max.x
        &&& p.y == self.min.y || p.y == self.max.y
        &&& p.z == self.min.z || p.z == self.max.z
    }

    /// Componentwise minimum of the lower corners and maximum of the upper
    /// ones.
    pub open spec fn spec_union(self, other: AABB) -> AABB {
        AABB {
            min: Vec3 {
                x: self.min.x.spec_min(other.min.x),
                y: self.min.y.spec_min(other.min.y),
                z: self.min.z.spec_min(other.min.z),
            },
            max: Vec3 {
                x: self.max.x.spec_max(other.max.x),
                y: self.max.y.spec_max(other.max.y),
                z: self.max.z.spec_max(other.max.z),
            },
        }
    }

    /// Whether a ray with the given slabs, taken in order, passes through the
    /// box within `(t_min, t_max)`: each slab cuts the interval down, and the
    /// ray misses as soon as the interval is empty.
    pub open spec fn spec_hit(slabs: Seq<Slab>, t_min: Scalar, t_max: Scalar) -> bool
        decreases slabs.len(),
    {
        if slabs.len() == 0 {
            true
        } else {
            let (lo, hi) = slabs[0].spec_clip(t_min, t_max);
            !hi.spec_le(lo) && Self::spec_hit(slabs.skip(1), lo, hi)
        }
    }

    /// The box that spans the given points of the plane of the first and
    /// third axes and reaches from `y_min` to `y_max` on the second. It
    /// starts out empty, from positive to negative infinity, and grows by one
    /// point after the other.
    pub open spec fn spec_spanning(y_min: Scalar, y_max: Scalar, points: Seq<(Scalar, Scalar)>) -> AABB
        decreases points.len(),
    {
        if points.len() == 0 {
            AABB {
                min: Vec3 {
                    x: Scalar { bits: INFINITY_BITS },
                    y: y_min,
                    z: Scalar { bits: INFINITY_BITS },
                },
                max: Vec3 {
                    x: Scalar { bits: (INFINITY_BITS + SIGN_BIT) as u64 },
                    y: y_max,
                    z: Scalar { bits: (INFINITY_BITS + SIGN_BIT) as u64 },
                },
            }
        } else {
            let b = Self::spec_spanning(y_min, y_max, points.drop_last());
            let (x, z) = points.last();
            AABB {
                min: Vec3 { x: b.min.x.spec_min(x), y: b.min.y, z: b.min.z.spec_min(z) },
                max: Vec3 { x: b.max.x.spec_max(x), y: b.max.y, z: b.max.z.spec_max(z) },
            }
        }
    }

    /// The interval `(t_min, t_max)` after every one of the slabs has cut it
    /// down, in order.
    pub open spec fn narrowed(slabs: Seq<Slab>, t_min: Scalar, t_max: Scalar) -> (Scalar, Scalar)
        decreases slabs.len(),
    {
        if slabs.len() == 0 {
            (t_min, t_max)
        } else {
            let (lo, hi) = slabs[0].spec_clip(t_min, t_max);
            Self::narrowed(slabs.skip(1), lo, hi)
        }
    }

    pub fn new(min: Point, max: Point) -> (b: AABB)
        ensures
            b.min == min,
            b.max == max,
    {
        AABB { min, max }
    }

    /// The box of an object turned about the second axis: `corners` are the
    /// four corners of the object's box in the plane of the first and third
    /// axes after the turn, and `y_min` and `y_max` its extent on the second
    /// axis, which the turn leaves alone.
    pub fn spanning(y_min: Scalar, y_max: Scalar, corners: &[(Scalar, Scalar); 4]) -> (b: AABB)
        ensures
            b == Self::spec_spanning(y_min, y_max, corners@),
    {
        let mut min = Vec3::new(Scalar::infinity(), y_min, Scalar::infinity());
        let mut max = Vec3::new(Scalar::neg_infinity(), y_max, Scalar::neg_infinity());
        let mut i: usize = 0;
        proof {
            assert(corners@.take(0).len() == 0);
        }
        while i < 4
            invariant
                i <= 4,
                (AABB { min, max }) == Self::spec_spanning(y_min, y_max, corners@.take(i as int)),
            decreases 4 - i,
        {
            let (x, z) = corners[i];
            proof {
                let done = corners@.take(i + 1);
                assert(done.drop_last() =~= corners@.take(i as int));
                assert(done.last() == corners@[i as int]);
            }
            min = Vec3::new(min.x.min(x), min.y, min.z.min(z));
            max = Vec3::new(max.x.max(x), max.y, max.z.max(z));
            i = i + 1;
        }
        proof {
            assert(corners@.take(4) =~= corners@);
        }
        AABB { min, max }
    }

    /// The slab test on the three axes. The slabs hold the crossings of the
    /// ray with this box's planes; a zero direction component shows as an
    /// infinite reciprocal and infinite or undefined crossings, and needs no
    /// case of its own.
    pub fn hit(slabs: &[Slab; 3], t_min: Scalar, t_max: Scalar) -> (inside: bool)
        ensures
            inside == Self::spec_hit(slabs@, t_min, t_max),
    {
        let mut lo = t_min;
        let mut hi = t_max;
        let mut a: usize = 0;
        proof {
            assert(slabs@.skip(0) =~= slabs@);
        }
        while a < 3
            invariant
                a <= 3,
                Self::spec_hit(slabs@, t_min, t_max) == Self::spec_hit(
                    slabs@.skip(a as int),
                    lo,
                    hi,
                ),
            decreases 3 - a,
        {
            let ghost rest = slabs@.skip(a as int);
            let (l, h) = slabs[a].clip(lo, hi);
            proof {
                assert(rest[0] == slabs@[a as int]);
                assert(rest.skip(1) =~= slabs@.skip(a as int + 1));
            }
            if h.le(l) {
                return false;
            }
            lo = l;
            hi = h;
            a = a + 1;
        }
        proof {
            assert(slabs@.skip(3).len() == 0);
        }
        true
    }

    #[verifier::when_used_as_spec(spec_union_ref)]
    pub fn union(&self, other: &AABB) -> (u: AABB)
        ensures
            u == self.spec_union(*other),
    {
        let small = Vec3::new(
            self.min.x.min(other.min.x),
            self.min.y.min(other.min.y),
            self.min.z.min(other.min.z),
        );
        let big = Vec3::new(
            self.max.x.max(other.max.x),
            self.max.y.max(other.max.y),
            self.max.z.max(other.max.z),
        );
        AABB { min: small, max: big }
    }

    pub open spec fn spec_union_ref(&self, other: &AABB) -> AABB {
        self.spec_union(*other)
    }
}

/// Every corner of two ordered boxes lies within their union, and the union is
/// ordered again.
pub proof fn lemma_union_contains_corners(a: AABB, b: AABB, p: Point)
    requires
        a.ordered(),
        b.ordered(),
        a.is_corner(p) || b.is_corner(p),
    ensures
        a.spec_union(b).contains(p),
        a.spec_union(b).ordered(),
{
}

/// The union is the smallest box that holds both: every point of either box
/// lies within it, and every ordered box that holds the corners of both holds
/// the union's corners too.
pub proof fn lemma_union_is_smallest(a: AABB, b: AABB, c: AABB, p: Point)
    requires
        a.ordered(),
        b.ordered(),
    ensures
        a.contains(p) || b.contains(p) ==> a.spec_union(b).contains(p),
        c.contains(a.min) && c.contains(a.max) && c.contains(b.min) && c.contains(b.max)
            ==> c.contains(a.spec_union(b).min) && c.contains(a.spec_union(b).max),
{
}

/// The box that spans points that are numbers reaches every one of them on
/// the first and the third axis.
pub proof fn lemma_spanning_reaches(y_min: Scalar, y_max: Scalar, points: Seq<(Scalar, Scalar)>, k: int)
    requires
        0 <= k < points.len(),
        forall|i: int| 0 <= i < points.len() ==> !(#[trigger] points[i]).0.nan() && !points[i].1.nan(),
    ensures
        ({
            let b = AABB::spec_spanning(y_min, y_max, points);
            &&& b.min.x.spec_le(points[k].0) && points[k].0.spec_le(b.max.x)
            &&& b.min.z.spec_le(points[k].1) && points[k].1.spec_le(b.max.z)
            &&& b.min.y == y_min && b.max.y == y_max
        }),
    decreases points.len(),
{
    let rest = points.drop_last();
    lemma_spanning_numbers(y_min, y_max, rest);
    if k < points.len() - 1 {
        assert forall|i: int| 0 <= i < rest.len() implies !(#[trigger] rest[i]).0.nan()
            && !rest[i].1.nan() by {
            assert(rest[i] == points[i]);
        }
        assert(rest[k] == points[k]);
        lemma_spanning_reaches(y_min, y_max, rest, k);
    }
}

/// The box that spans points that are numbers has numbers for its limits on
/// the first and the third axis.
pub proof fn lemma_spanning_numbers(y_min: Scalar, y_max: Scalar, points: Seq<(Scalar, Scalar)>)
    ensures
        ({
            let b = AABB::spec_spanning(y_min, y_max, points);
            &&& !b.min.x.nan() && !b.max.x.nan()
            &&& !b.min.z.nan() && !b.max.z.nan()
            &&& b.min.y == y_min && b.max.y == y_max
        }),
    decreases points.len(),
{
    if points.len() > 0 {
        lemma_spanning_numbers(y_min, y_max, points.drop_last());
    }
}

/// Whether the reciprocal and both crossings of every slab are numbers.
pub open spec fn slabs_are_numbers(slabs: Seq<Slab>) -> bool {
    forall|i: int|
        0 <= i < slabs.len() ==> !(#[trigger] slabs[i]).inv_d.nan() && !slabs[i].t0.nan()
            && !slabs[i].t1.nan()
}

/// To reject a ray as soon as its interval is empty is to reject it when
/// the interval that all slabs leave is empty: a slab never widens what it
/// is given. This holds for at least one slab, of crossings and limits that
/// are numbers.
pub proof fn lemma_hit_is_a_nonempty_interval(slabs: Seq<Slab>, t_min: Scalar, t_max: Scalar)
    requires
        slabs.len() > 0,
        slabs_are_numbers(slabs),
        !t_min.nan(),
        !t_max.nan(),
    ensures
        AABB::spec_hit(slabs, t_min, t_max) == AABB::narrowed(slabs, t_min, t_max).0.spec_lt(
            AABB::narrowed(slabs, t_min, t_max).1,
        ),
        !AABB::narrowed(slabs, t_min, t_max).0.nan(),
        !AABB::narrowed(slabs, t_min, t_max).1.nan(),
        t_min.spec_le(AABB::narrowed(slabs, t_min, t_max).0),
        AABB::narrowed(slabs, t_min, t_max).1.spec_le(t_max),
    decreases slabs.len(),
{
    let (lo, hi) = slabs[0].spec_clip(t_min, t_max);
    let rest = slabs.skip(1);
    if rest.len() > 0 {
        assert forall|i: int| 0 <= i < rest.len() implies !(#[trigger] rest[i]).inv_d.nan()
            && !rest[i].t0.nan() && !rest[i].t1.nan() by {
            assert(rest[i] == slabs[i + 1]);
        }
        lemma_hit_is_a_nonempty_interval(rest, lo, hi);
    } else {
        assert(AABB::spec_hit(rest, lo, hi));
        assert(AABB::narrowed(rest, lo, hi) == (lo, hi));
    }
}

/// A slab along which the ray runs leaves the interval as it is, whatever the
/// sign of the infinite reciprocal.
pub proof fn lemma_unbounded_slab_keeps_interval(s: Slab, t_min: Scalar, t_max: Scalar)
    requires
        s.unbounded(),
        !t_min.nan(),
        !t_max.nan(),
    ensures
        s.spec_clip(t_min, t_max) == (t_min, t_max),
{
}

/// A ray whose three slabs are all unbounded passes through the box exactly
/// when the interval it is asked about is not empty.
pub proof fn lemma_unbounded_slabs_hit(slabs: Seq<Slab>, t_min: Scalar, t_max: Scalar)
    requires
        forall|i: int| 0 <= i < slabs.len() ==> (#[trigger] slabs[i]).unbounded(),
        !t_min.nan(),
        !t_max.nan(),
        slabs.len() > 0,
    ensures
        AABB::spec_hit(slabs, t_min, t_max) == t_min.spec_lt(t_max),
    decreases slabs.len(),
{
    lemma_unbounded_slab_keeps_interval(slabs[0], t_min, t_max);
    let rest = slabs.skip(1);
    if rest.len() > 0 {
        assert forall|i: int| 0 <= i < rest.len() implies (#[trigger] rest[i]).unbounded() by {
            assert(rest[i] == slabs[i + 1]);
        }
        lemma_unbounded_slabs_hit(rest, t_min, t_max);
    } else {
        assert(AABB::spec_hit(rest, t_min, t_max));
    }
}

} // verus!
