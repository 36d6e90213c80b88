//! Rectangles in the three coordinate planes: their extents, their boxes and
//! the hits on them, from crossings that the caller has computed.

use vstd::pervasive::cloned;
use vstd::prelude::*;
use crate::aabb::AABB;
use crate::hittable::{faces_front, oriented_normal, HitRecord};
use crate::interval::Interval;
use crate::scalar::{Scalar, ONE_BITS};
use crate::vec3::{Point, Vec3};

verus! {

/// Whether the coordinate `c` is known to lie outside `[lo, hi]`. A NaN is
/// never known to lie outside.
pub open spec fn spec_beyond(lo: Scalar, hi: Scalar, c: Scalar) -> bool {
    c.spec_lt(lo) || hi.spec_lt(c)
}

#[verifier::when_used_as_spec(spec_beyond)]
pub fn beyond(lo: Scalar, hi: Scalar, c: Scalar) -> (out: bool)
    ensures
        out == spec_beyond(lo, hi, c),
{
    c.lt(lo) || hi.lt(c)
}

/// The unit vector of an axis: 0, 1 or 2.
pub open spec fn unit(axis: int) -> Vec3 {
    Vec3 {
        x: Scalar { bits: if axis == 0 { ONE_BITS } else { 0 } },
        y: Scalar { bits: if axis == 1 { ONE_BITS } else { 0 } },
        z: Scalar { bits: if axis == 2 { ONE_BITS } else { 0 } },
    }
}

/// A rectangle in a plane across the third axis, at `k` on that axis.
pub struct XYRect<M> {
    pub x0: Scalar,
    pub x1: Scalar,
    pub y0: Scalar,
    pub y1: Scalar,
    pub k: Scalar,
    pub mat: M,
}

impl<M: Clone> XYRect<M> {
    /// Whether the point `(x, y)` of the plane is known to lie outside the
    /// rectangle.
    pub open spec fn misses(&self, x: Scalar, y: Scalar) -> bool {
        spec_beyond(self.x0, self.x1, x) || spec_beyond(self.y0, self.y1, y)
    }

    pub fn new(x0: Scalar, x1: Scalar, y0: Scalar, y1: Scalar, k: Scalar, mat: M) -> (rect: Self)
        ensures
            rect.x0 == x0,
            rect.x1 == x1,
            rect.y0 == y0,
            rect.y1 == y1,
            rect.k == k,
            rect.mat == mat,
    {
        XYRect { x0, x1, y0, y1, k, mat }
    }

    /// The box of the rectangle. It has no thickness of its own: `below` and
    /// `above` are the limits that the box gets across the plane, and must
    /// lie to either side of `k`, so that the box is never flat.
    pub fn bounding_box(&self, below: Scalar, above: Scalar) -> (b: AABB)
        requires
            below.spec_lt(self.k),
            self.k.spec_lt(above),
        ensures
            b.min == (Vec3 { x: self.x0, y: self.y0, z: below }),
            b.max == (Vec3 { x: self.x1, y: self.y1, z: above }),
            b.min.z.spec_lt(b.max.z),
    {
        AABB::new(
            Vec3 { x: self.x0, y: self.y0, z: below },
            Vec3 { x: self.x1, y: self.y1, z: above },
        )
    }

    /// The hit of a ray that crosses the plane at the parameter `t` and the
    /// point `p`, whose coordinates in the plane are `x` and `y`: none where
    /// `t` lies outside `limits` or the point outside the rectangle.
    /// `u` and `v` are the point's places within the extents on the first and
    /// the second axis.
    /// `facing` is the dot product of the ray's direction and the normal,
    /// which is the unit vector of the third axis.
    pub fn hit(
        &self,
        limits: &Interval,
        t: Scalar,
        p: Point,
        x: Scalar,
        y: Scalar,
        u: Scalar,
        v: Scalar,
        facing: Scalar,
    ) -> (rec: Option<HitRecord<M>>)
        ensures
            rec is None <==> limits.spec_excludes(t) || self.misses(x, y),
            rec matches Some(hit) ==> {
                &&& hit.t == t
                &&& hit.p == p
                &&& hit.u == u
                &&& hit.v == v
                &&& hit.front_face == faces_front(facing)
                &&& hit.normal == oriented_normal(facing, unit(2))
                &&& cloned(self.mat, hit.material)
            },
    {
        if limits.excludes(t) {
            return None;
        }
        if beyond(self.x0, self.x1, x) || beyond(self.y0, self.y1, y) {
            return None;
        }
        Some(HitRecord::new(t, p, facing, u, v, self.mat.clone(), Vec3::z(Scalar::from_bits(ONE_BITS))))
    }
}

/// A rectangle in a plane across the second axis, at `k` on that axis.
pub struct XZRect<M> {
    pub x0: Scalar,
    pub x1: Scalar,
    pub z0: Scalar,
    pub z1: Scalar,
    pub k: Scalar,
    pub mat: M,
}

impl<M: Clone> XZRect<M> {
    /// Whether the point `(x, z)` of the plane is known to lie outside the
    /// rectangle.
    pub open spec fn misses(&self, x: Scalar, z: Scalar) -> bool {
        spec_beyond(self.x0, self.x1, x) || spec_beyond(self.z0, self.z1, z)
    }

    pub fn new(x0: Scalar, x1: Scalar, z0: Scalar, z1: Scalar, k: Scalar, mat: M) -> (rect: Self)
        ensures
            rect.x0 == x0,
            rect.x1 == x1,
            rect.z0 == z0,
            rect.z1 == z1,
            rect.k == k,
            rect.mat == mat,
    {
        XZRect { x0, x1, z0, z1, k, mat }
    }

    /// The box of the rectangle. It has no thickness of its own: `below` and
    /// `above` are the limits that the box gets across the plane, and must
    /// lie to either side of `k`, so that the box is never flat.
    pub fn bounding_box(&self, below: Scalar, above: Scalar) -> (b: AABB)
        requires
            below.spec_lt(self.k),
            self.k.spec_lt(above),
        ensures
            b.min == (Vec3 { x: self.x0, y: below, z: self.z0 }),
            b.max == (Vec3 { x: self.x1, y: above, z: self.z1 }),
            b.min.y.spec_lt(b.max.y),
    {
        AABB::new(
            Vec3 { x: self.x0, y: below, z: self.z0 },
            Vec3 { x: self.x1, y: above, z: self.z1 },
        )
    }

    /// The hit of a ray that crosses the plane at the parameter `t` and the
    /// point `p`, whose coordinates in the plane are `x` and `z`: none where
    /// `t` lies outside `limits` or the point outside the rectangle.
    /// `u` and `v` are the point's places within the extents on the first and
    /// the third axis.
    /// `facing` is the dot product of the ray's direction and the normal,
    /// which is the unit vector of the second axis.
    pub fn hit(
        &self,
        limits: &Interval,
        t: Scalar,
        p: Point,
        x: Scalar,
        z: Scalar,
        u: Scalar,
        v: Scalar,
        facing: Scalar,
    ) -> (rec: Option<HitRecord<M>>)
        ensures
            rec is None <==> limits.spec_excludes(t) || self.misses(x, z),
            rec matches Some(hit) ==> {
                &&& hit.t == t
                &&& hit.p == p
                &&& hit.u == u
                &&& hit.v == v
                &&& hit.front_face == faces_front(facing)
                &&& hit.normal == oriented_normal(facing, unit(1))
                &&& cloned(self.mat, hit.material)
            },
    {
        if limits.excludes(t) {
            return None;
        }
        if beyond(self.x0, self.x1, x) || beyond(self.z0, self.z1, z) {
            return None;
        }
        Some(HitRecord::new(t, p, facing, u, v, self.mat.clone(), Vec3::y(Scalar::from_bits(ONE_BITS))))
    }
}

/// A rectangle in a plane across the first axis, at `k` on that axis.
pub struct YZRect<M> {
    pub y0: Scalar,
    pub y1: Scalar,
    pub z0: Scalar,
    pub z1: Scalar,
    pub k: Scalar,
    pub mat: M,
}

impl<M: Clone> YZRect<M> {
    /// Whether the point `(y, z)` of the plane is known to lie outside the
    /// rectangle.
    pub open spec fn misses(&self, y: Scalar, z: Scalar) -> bool {
        spec_beyond(self.y0, self.y1, y) || spec_beyond(self.z0, self.z1, z)
    }

    pub fn new(y0: Scalar, y1: Scalar, z0: Scalar, z1: Scalar, k: Scalar, mat: M) -> (rect: Self)
        ensures
            rect.y0 == y0,
            rect.y1 == y1,
            rect.z0 == z0,
            rect.z1 == z1,
            rect.k == k,
            rect.mat == mat,
    {
        YZRect { y0, y1, z0, z1, k, mat }
    }

    /// The box of the rectangle. It has no thickness of its own: `below` and
    /// `above` are the limits that the box gets across the plane, and must
    /// lie to either side of `k`, so that the box is never flat.
    pub fn bounding_box(&self, below: Scalar, above: Scalar) -> (b: AABB)
        requires
            below.spec_lt(self.k),
            self.k.spec_lt(above),
        ensures
            b.min == (Vec3 { x: below, y: self.y0, z: self.z0 }),
            b.max == (Vec3 { x: above, y: self.y1, z: self.z1 }),
            b.min.x.spec_lt(b.max.x),
    {
        AABB::new(
            Vec3 { x: below, y: self.y0, z: self.z0 },
            Vec3 { x: above, y: self.y1, z: self.z1 },
        )
    }

    /// The hit of a ray that crosses the plane at the parameter `t` and the
    /// point `p`, whose coordinates in the plane are `y` and `z`: none where
    /// `t` lies outside `limits` or the point outside the rectangle.
    /// `u` and `v` are the point's places within the extents on the third and
    /// the second axis.
    /// `facing` is the dot product of the ray's direction and the normal,
    /// which is the unit vector of the first axis.
    pub fn hit(
        &self,
        limits: &Interval,
        t: Scalar,
        p: Point,
        y: Scalar,
        z: Scalar,
        u: Scalar,
        v: Scalar,
        facing: Scalar,
    ) -> (rec: Option<HitRecord<M>>)
        ensures
            rec is None <==> limits.spec_excludes(t) || self.misses(y, z),
            rec matches Some(hit) ==> {
                &&& hit.t == t
                &&& hit.p == p
                &&& hit.u == u
                &&& hit.v == v
                &&& hit.front_face == faces_front(facing)
                &&& hit.normal == oriented_normal(facing, unit(0))
                &&& cloned(self.mat, hit.material)
            },
    {
        if limits.excludes(t) {
            return None;
        }
        if beyond(self.y0, self.y1, y) || beyond(self.z0, self.z1, z) {
            return None;
        }
        Some(HitRecord::new(t, p, facing, u, v, self.mat.clone(), Vec3::x(Scalar::from_bits(ONE_BITS))))
    }
}

} // verus!
