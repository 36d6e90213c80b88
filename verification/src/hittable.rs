//! Hit records, the capability of being hit by a ray, and the rule by which a
//! search keeps the nearest hit.

use vstd::prelude::*;
use crate::aabb::AABB;
use crate::ray::Ray;
use crate::scalar::{Scalar, ONE_BITS};
use crate::vec3::{Point, Vec3};

verus! {

/// What is known of a ray's hit on a surface. `M` is the handle of the
/// material that answers for the hit.
#[derive(Debug)]
pub struct HitRecord<M> {
    pub p: Point,
    pub normal: Vec3,
    pub t: Scalar,
    pub u: Scalar,
    pub v: Scalar,
    pub material: M,
    pub front_face: bool,
}

/// The place of a hit, without the material: what a material is told of the
/// hit that it answers for.
#[derive(Clone, Copy, Debug)]
pub struct Contact {
    pub p: Point,
    pub normal: Vec3,
    pub t: Scalar,
    pub u: Scalar,
    pub v: Scalar,
    pub front_face: bool,
}

/// Whether a surface shows its front to a ray: `facing` is the dot product of
/// the ray's direction and the outward normal, and the front is hit when it is
/// negative.
pub open spec fn faces_front(facing: Scalar) -> bool {
    facing.spec_lt(Scalar { bits: 0 })
}

/// The normal turned against the incoming ray.
pub open spec fn oriented_normal(facing: Scalar, outward_normal: Vec3) -> Vec3 {
    if faces_front(facing) {
        outward_normal
    } else {
        outward_normal.spec_neg()
    }
}

impl<M> HitRecord<M> {
    /// The place of the hit.
    pub open spec fn spec_contact(&self) -> Contact {
        Contact {
            p: self.p,
            normal: self.normal,
            t: self.t,
            u: self.u,
            v: self.v,
            front_face: self.front_face,
        }
    }

    #[verifier::when_used_as_spec(spec_contact)]
    pub fn contact(&self) -> (c: Contact)
        ensures
            c == self.spec_contact(),
    {
        Contact {
            p: self.p,
            normal: self.normal,
            t: self.t,
            u: self.u,
            v: self.v,
            front_face: self.front_face,
        }
    }

    /// A record of a hit at parameter `t` and point `p`. `facing` is the dot
    /// product of the ray's direction and `outward_normal`; the stored normal
    /// is turned so that it opposes the ray.
    pub fn new(
        t: Scalar,
        p: Point,
        facing: Scalar,
        u: Scalar,
        v: Scalar,
        mat: M,
        outward_normal: Vec3,
    ) -> (rec: Self)
        ensures
            rec.t == t,
            rec.p == p,
            rec.u == u,
            rec.v == v,
            rec.material == mat,
            rec.front_face == faces_front(facing),
            rec.normal == oriented_normal(facing, outward_normal),
    {
        let front_face = facing.lt(Scalar::zero());
        HitRecord {
            t,
            p,
            u,
            v,
            material: mat,
            front_face,
            normal: if front_face {
                outward_normal
            } else {
                outward_normal.neg()
            },
        }
    }

    /// The record of a scattering inside a medium, made from the record of
    /// the ray's entry into it: the parameter, the point and the material are
    /// new, the normal is the unit vector of the first axis, which stands for
    /// no surface, and the front face is set. The texture coordinates stay.
    pub fn in_medium(self, t: Scalar, p: Point, phase: M) -> (rec: Self)
        ensures
            rec.t == t,
            rec.p == p,
            rec.material == phase,
            rec.front_face,
            rec.normal == (Vec3 {
                x: Scalar { bits: ONE_BITS },
                y: Scalar { bits: 0 },
                z: Scalar { bits: 0 },
            }),
            rec.u == self.u,
            rec.v == self.v,
    {
        HitRecord {
            t,
            p,
            u: self.u,
            v: self.v,
            material: phase,
            front_face: true,
            normal: Vec3::x(Scalar::from_bits(ONE_BITS)),
        }
    }

    /// The scattering of a ray inside a medium, if there is one: the ray
    /// travels `free_path` before it scatters and has `inside` to go within
    /// the medium, and passes through where the free path is the longer of
    /// the two. Otherwise the record is that of `in_medium`.
    pub fn scattered_in_medium(
        self,
        free_path: Scalar,
        inside: Scalar,
        t: Scalar,
        p: Point,
        phase: M,
    ) -> (rec: Option<Self>)
        ensures
            rec is None <==> inside.spec_lt(free_path),
            rec matches Some(hit) ==> {
                &&& hit.t == t
                &&& hit.p == p
                &&& hit.material == phase
                &&& hit.front_face
                &&& hit.normal == (Vec3 {
                    x: Scalar { bits: ONE_BITS },
                    y: Scalar { bits: 0 },
                    z: Scalar { bits: 0 },
                })
                &&& hit.u == self.u
                &&& hit.v == self.v
            },
    {
        if inside.lt(free_path) {
            None
        } else {
            Some(self.in_medium(t, p, phase))
        }
    }

    /// Sets the face flag and the normal from `facing`, the dot product of the
    /// ray's direction and `outward_normal`; nothing else changes.
    pub fn set_face_normal(&mut self, facing: Scalar, outward_normal: Vec3)
        ensures
            final(self).front_face == faces_front(facing),
            final(self).normal == oriented_normal(facing, outward_normal),
            final(self).t == old(self).t,
            final(self).p == old(self).p,
            final(self).u == old(self).u,
            final(self).v == old(self).v,
            final(self).material == old(self).material,
    {
        self.front_face = facing.lt(Scalar::zero());
        self.normal = if self.front_face {
            outward_normal
        } else {
            outward_normal.neg()
        };
    }
}

/// An object that a ray can hit.
///
/// An implementation may say which outcomes its two methods admit; the
/// composites of this library state their own outcomes in terms of those of
/// their members. The defaults admit everything, so that an implementation
/// that states nothing promises nothing.
pub trait Hittable {
    /// The handle by which a hit names its material.
    type Mat;

    /// Whether `hit` may answer `rec` for this ray and interval.
    open spec fn admits_hit(
        &self,
        r: Ray,
        t_min: Scalar,
        t_max: Scalar,
        rec: Option<HitRecord<Self::Mat>>,
    ) -> bool {
        true
    }

    /// Whether `bounding_box` may answer `b` for this time range.
    open spec fn admits_box(&self, time0: Scalar, time1: Scalar, b: Option<AABB>) -> bool {
        true
    }

    /// The hit of `r` on the object with its parameter in `[t_min, t_max]`,
    /// if there is one.
    fn hit(&self, r: &Ray, t_min: Scalar, t_max: Scalar) -> (rec: Option<HitRecord<Self::Mat>>)
        ensures
            self.admits_hit(*r, t_min, t_max, rec),
    ;

    /// A box that holds the object during `[time0, time1]`, or nothing for an
    /// object without bounds.
    fn bounding_box(&self, time0: Scalar, time1: Scalar) -> (b: Option<AABB>)
        ensures
            self.admits_box(time0, time1, b),
    ;
}

/// The state of a search for the nearest hit among several objects: the
/// upper limit for the next object's parameter, and the hit held so far.
#[derive(Debug)]
pub struct Nearest<M> {
    pub limit: Scalar,
    pub best: Option<HitRecord<M>>,
}

impl<M> Nearest<M> {
    /// A search that has asked nobody yet.
    pub open spec fn spec_start(t_max: Scalar) -> Self {
        Nearest { limit: t_max, best: None }
    }

    /// The search after one more object has answered `found`: a new hit
    /// replaces the one held, since it was searched for below the held one's
    /// parameter, and its parameter is the new limit.
    pub open spec fn spec_offer(self, found: Option<HitRecord<M>>) -> Self {
        match found {
            Some(rec) => Nearest { limit: rec.t, best: Some(rec) },
            None => self,
        }
    }

    #[verifier::when_used_as_spec(spec_start)]
    pub fn start(t_max: Scalar) -> (search: Self)
        ensures
            search == Self::spec_start(t_max),
    {
        Nearest { limit: t_max, best: None }
    }

    #[verifier::when_used_as_spec(spec_offer)]
    pub fn offer(self, found: Option<HitRecord<M>>) -> (search: Self)
        ensures
            search == self.spec_offer(found),
    {
        match found {
            Some(rec) => Nearest { limit: rec.t, best: Some(rec) },
            None => self,
        }
    }
}

} // verus!
