//! The box: six rectangles, two across each axis, of one material.

use vstd::pervasive::cloned;
use vstd::prelude::*;
use crate::aabb::AABB;
use crate::aarect::{XYRect, XZRect, YZRect};
use crate::hittable::{HitRecord, Nearest};
use crate::scalar::Scalar;
use crate::vec3::Point;

verus! {

/// A side of a box.
pub enum Side<M> {
    XY(XYRect<M>),
    XZ(XZRect<M>),
    YZ(YZRect<M>),
}

/// A box between two corners, with its six sides: across the third axis at
/// the lower and the upper corner, then across the second, then across the
/// first.
pub struct Box3D<M> {
    pub min: Point,
    pub max: Point,
    pub sides: Vec<Side<M>>,
}

/// Whether `side` is the side of the box between `p0` and `p1` that lies
/// across `axis` at the coordinate `k`, of a material cloned from `material`.
pub open spec fn is_side<M: Clone>(
    side: Side<M>,
    p0: Point,
    p1: Point,
    axis: int,
    k: crate::scalar::Scalar,
    material: M,
) -> bool {
    match side {
        Side::XY(r) => {
            &&& axis == 2
            &&& r.x0 == p0.x && r.x1 == p1.x && r.y0 == p0.y && r.y1 == p1.y
            &&& r.k == k
            &&& cloned(material, r.mat)
        },
        Side::XZ(r) => {
            &&& axis == 1
            &&& r.x0 == p0.x && r.x1 == p1.x && r.z0 == p0.z && r.z1 == p1.z
            &&& r.k == k
            &&& cloned(material, r.mat)
        },
        Side::YZ(r) => {
            &&& axis == 0
            &&& r.y0 == p0.y && r.y1 == p1.y && r.z0 == p0.z && r.z1 == p1.z
            &&& r.k == k
            &&& cloned(material, r.mat)
        },
    }
}

/// Whether a search through `sides` can end in the state `end`: it starts at
/// `t_max` with no hit, and `hit_side` is asked for the hit on each side,
/// in order, below the limit that the sides before it left.
pub open spec fn sides_scanned<M, F: Fn(&Side<M>, Scalar) -> Option<HitRecord<M>>>(
    sides: Seq<Side<M>>,
    hit_side: F,
    t_max: Scalar,
    end: Nearest<M>,
) -> bool
    decreases sides.len(),
{
    if sides.len() == 0 {
        end == Nearest::<M>::spec_start(t_max)
    } else {
        exists|before: Nearest<M>, found: Option<HitRecord<M>>|
            {
                &&& sides_scanned(sides.drop_last(), hit_side, t_max, before)
                &&& hit_side.ensures((&sides.last(), before.limit), found)
                &&& end == #[trigger] before.spec_offer(found)
            }
    }
}

impl<M: Clone> Box3D<M> {
    /// The box between the corners `p0` and `p1`. Each side reaches from
    /// `p0` to `p1` within its plane and lies at a coordinate of `p0` or of
    /// `p1` across it; all sides share the material.
    pub fn new(p0: Point, p1: Point, material: M) -> (b: Self)
        ensures
            b.min == p0,
            b.max == p1,
            b.sides@.len() == 6,
            is_side(b.sides@[0], p0, p1, 2, p0.z, material),
            is_side(b.sides@[1], p0, p1, 2, p1.z, material),
            is_side(b.sides@[2], p0, p1, 1, p0.y, material),
            is_side(b.sides@[3], p0, p1, 1, p1.y, material),
            is_side(b.sides@[4], p0, p1, 0, p0.x, material),
            is_side(b.sides@[5], p0, p1, 0, p1.x, material),
    {
        let mut sides: Vec<Side<M>> = Vec::new();

        sides.push(Side::XY(XYRect::new(p0.x, p1.x, p0.y, p1.y, p0.z, material.clone())));
        sides.push(Side::XY(XYRect::new(p0.x, p1.x, p0.y, p1.y, p1.z, material.clone())));

        sides.push(Side::XZ(XZRect::new(p0.x, p1.x, p0.z, p1.z, p0.y, material.clone())));
        sides.push(Side::XZ(XZRect::new(p0.x, p1.x, p0.z, p1.z, p1.y, material.clone())));

        sides.push(Side::YZ(YZRect::new(p0.y, p1.y, p0.z, p1.z, p0.x, material.clone())));
        sides.push(Side::YZ(YZRect::new(p0.y, p1.y, p0.z, p1.z, p1.x, material)));

        Box3D { min: p0, max: p1, sides }
    }

    /// The nearest hit of a ray on the sides of the box, below `t_max`.
    /// `hit_side` gives the hit of the ray on one side below a limit; the
    /// sides are asked in order, each below the parameter of the hit found
    /// so far, and the last hit found is returned.
    pub fn hit<F: Fn(&Side<M>, Scalar) -> Option<HitRecord<M>>>(
        &self,
        t_max: Scalar,
        hit_side: &F,
    ) -> (rec: Option<HitRecord<M>>)
        requires
            forall|side: &Side<M>, limit: Scalar| hit_side.requires((side, limit)),
        ensures
            exists|end: Nearest<M>|
                #[trigger] sides_scanned(self.sides@, *hit_side, t_max, end) && rec == end.best,
    {
        let mut search = Nearest::start(t_max);
        let mut i: usize = 0;
        proof {
            assert(self.sides@.take(0).len() == 0);
        }
        while i < self.sides.len()
            invariant
                i <= self.sides@.len(),
                forall|side: &Side<M>, limit: Scalar| hit_side.requires((side, limit)),
                sides_scanned(self.sides@.take(i as int), *hit_side, t_max, search),
            decreases self.sides@.len() - i,
        {
            let found = hit_side(&self.sides[i], search.limit);
            let ghost before = search;
            search = search.offer(found);
            proof {
                let done = self.sides@.take(i + 1);
                assert(done.drop_last() =~= self.sides@.take(i as int));
                assert(done.last() == self.sides@[i as int]);
                assert(hit_side.ensures((&done.last(), before.limit), found));
                assert(search == before.spec_offer(found));
            }
            i = i + 1;
        }
        proof {
            assert(self.sides@.take(self.sides@.len() as int) =~= self.sides@);
        }
        search.best
    }

    /// The box's own corners, not the union of its sides' boxes.
    pub fn bounding_box(&self) -> (b: AABB)
        ensures
            b.min == self.min,
            b.max == self.max,
    {
        AABB::new(self.min, self.max)
    }
}

} // verus!
