//! Spheres, at rest and in motion: the choice between the two places where
//! a ray's line meets the sphere, from roots that the caller has computed.

use vstd::pervasive::cloned;
use vstd::prelude::*;
use crate::aabb::AABB;
use crate::hittable::{faces_front, oriented_normal, HitRecord};
use crate::interval::Interval;
use crate::scalar::Scalar;
use crate::vec3::{Point, Vec3};

verus! {

/// One of the two places where the line of a ray meets a sphere: the ray's
/// parameter there, the point, the outward normal of the sphere at it, the
/// texture coordinates, and the dot product of the ray's direction and that
/// normal.
#[derive(Clone, Copy, Debug)]
pub struct Crossing {
    pub t: Scalar,
    pub p: Point,
    pub outward_normal: Vec3,
    pub u: Scalar,
    pub v: Scalar,
    pub facing: Scalar,
}

/// A sphere at rest.
pub struct Sphere<M> {
    pub center: Point,
    pub radius: Scalar,
    pub material: M,
}

/// A sphere whose center moves on a line, from `center0` at `time0` to
/// `center1` at `time1`.
pub struct MovingSphere<M> {
    pub center0: Point,
    pub center1: Point,
    pub time0: Scalar,
    pub time1: Scalar,
    pub radius: Scalar,
    pub material: M,
}

/// The crossing at which a ray hits a sphere within `limits`, if it does.
/// `discriminant` is that of the quadratic of the ray and the sphere. A ray
/// with a negative discriminant passes the sphere by. Otherwise the nearer
/// crossing is taken, the farther one only where the nearer lies outside the
/// limits, and none where both do.
pub open spec fn spec_crossing(
    limits: Interval,
    discriminant: Scalar,
    near: Crossing,
    far: Crossing,
) -> Option<Crossing> {
    if discriminant.spec_lt(Scalar { bits: 0 }) {
        None
    } else if !limits.spec_excludes(near.t) {
        Some(near)
    } else if !limits.spec_excludes(far.t) {
        Some(far)
    } else {
        None
    }
}

/// Whether `hit` records the crossing `at` on a surface of a material cloned
/// from `material`, with the normal turned against the ray.
pub open spec fn records<M: Clone>(hit: HitRecord<M>, at: Crossing, material: M) -> bool {
    &&& hit.t == at.t
    &&& hit.p == at.p
    &&& hit.u == at.u
    &&& hit.v == at.v
    &&& hit.front_face == faces_front(at.facing)
    &&& hit.normal == oriented_normal(at.facing, at.outward_normal)
    &&& cloned(material, hit.material)
}

/// The hit on a sphere of the given material, from its two crossings.
pub fn hit_sphere<M: Clone>(
    material: &M,
    limits: &Interval,
    discriminant: Scalar,
    near: &Crossing,
    far: &Crossing,
) -> (rec: Option<HitRecord<M>>)
    ensures
        match spec_crossing(*limits, discriminant, *near, *far) {
            Some(at) => rec matches Some(hit) && records(hit, at, *material),
            None => rec is None,
        },
        spec_crossing(*limits, discriminant, *near, *far) matches Some(at) ==> Some(at.t)
            == limits.spec_first_root(discriminant, near.t, far.t),
        rec is None <==> limits.spec_first_root(discriminant, near.t, far.t) is None,
{
    let at = match limits.first_root(discriminant, near.t, far.t) {
        None => {
            return None;
        },
        Some(_) => if !limits.excludes(near.t) {
            near
        } else {
            far
        },
    };
    Some(HitRecord::new(at.t, at.p, at.facing, at.u, at.v, material.clone(), at.outward_normal))
}

impl<M: Clone> Sphere<M> {
    pub fn new(center: Point, radius: Scalar, material: M) -> (sphere: Self)
        ensures
            sphere.center == center,
            sphere.radius == radius,
            sphere.material == material,
    {
        Sphere { center, radius, material }
    }

    /// The hit of a ray on the sphere within `limits`: none for a ray that
    /// passes the sphere by, and otherwise the nearer of the crossings that
    /// lie within the limits.
    pub fn hit(
        &self,
        limits: &Interval,
        discriminant: Scalar,
        near: &Crossing,
        far: &Crossing,
    ) -> (rec: Option<HitRecord<M>>)
        ensures
            match spec_crossing(*limits, discriminant, *near, *far) {
                Some(at) => rec matches Some(hit) && records(hit, at, self.material),
                None => rec is None,
            },
    {
        hit_sphere(&self.material, limits, discriminant, near, far)
    }
}

impl<M: Clone> MovingSphere<M> {
    pub fn new(
        center0: Point,
        center1: Point,
        time0: Scalar,
        time1: Scalar,
        radius: Scalar,
        material: M,
    ) -> (sphere: Self)
        ensures
            sphere.center0 == center0,
            sphere.center1 == center1,
            sphere.time0 == time0,
            sphere.time1 == time1,
            sphere.radius == radius,
            sphere.material == material,
    {
        MovingSphere { center0, center1, time0, time1, radius, material }
    }

    /// The hit of a ray on the sphere, as it stands at the ray's time, within
    /// `limits`: as for a sphere at rest.
    pub fn hit(
        &self,
        limits: &Interval,
        discriminant: Scalar,
        near: &Crossing,
        far: &Crossing,
    ) -> (rec: Option<HitRecord<M>>)
        ensures
            match spec_crossing(*limits, discriminant, *near, *far) {
                Some(at) => rec matches Some(hit) && records(hit, at, self.material),
                None => rec is None,
            },
    {
        hit_sphere(&self.material, limits, discriminant, near, far)
    }

    /// The box of the sphere over a time range: the union of its boxes at
    /// the start and at the end of the range.
    pub fn bounding_box(&self, at_start: &AABB, at_end: &AABB) -> (b: AABB)
        ensures
            b == at_start.spec_union(*at_end),
    {
        at_start.union(at_end)
    }
}

} // verus!
