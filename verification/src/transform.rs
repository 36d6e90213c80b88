//! Objects that are moved or turned: the ray is taken into the object's own
//! space, the object is hit there, and the hit is taken back.
//!
//! The arithmetic of the move and of the turn is the caller's: it hands in
//! the ray as the object sees it and a function that takes a hit back.

use vstd::prelude::*;
use crate::aabb::AABB;
use crate::hittable::{Contact, HitRecord, Hittable};
use crate::ray::Ray;
use crate::scalar::{Scalar, ONE_BITS};
use crate::vec3::{Point, Vec3};

verus! {

/// Where a hit lies after it has been turned back out of an object's
/// space: its point and its normal.
#[derive(Clone, Copy, Debug)]
pub struct Placed {
    pub p: Point,
    pub normal: Vec3,
}

/// The hit `h` at the place `at`: the point and the normal are new, and all
/// else is as it was, the face that the ray met included.
pub open spec fn spec_placed<M>(h: HitRecord<M>, at: Placed) -> HitRecord<M> {
    HitRecord {
        p: at.p,
        normal: at.normal,
        t: h.t,
        u: h.u,
        v: h.v,
        material: h.material,
        front_face: h.front_face,
    }
}

/// The hit `h` at the point `p`: nothing but the point is new.
pub open spec fn spec_moved<M>(h: HitRecord<M>, p: Point) -> HitRecord<M> {
    HitRecord {
        p,
        normal: h.normal,
        t: h.t,
        u: h.u,
        v: h.v,
        material: h.material,
        front_face: h.front_face,
    }
}

/// Whether a hit on `object` by the ray `local`, taken back by `back`, may be
/// `rec`: nothing where the object is not hit, and otherwise the object's
/// hit at the place that `back` gives for it.
pub open spec fn carried<H: Hittable, F: Fn(Contact) -> Placed>(
    object: H,
    local: Ray,
    t_min: Scalar,
    t_max: Scalar,
    back: F,
    rec: Option<HitRecord<H::Mat>>,
) -> bool {
    exists|inner: Option<HitRecord<H::Mat>>|
        {
            &&& #[trigger] object.admits_hit(local, t_min, t_max, inner)
            &&& match inner {
                None => rec is None,
                Some(h) => exists|at: Placed|
                    #[trigger] back.ensures((h.spec_contact(),), at) && rec == Some(
                        spec_placed(h, at),
                    ),
            }
        }
}

/// Whether a hit on `object` by the ray `local`, moved by `back`, may be
/// `rec`: nothing where the object is not hit, and otherwise the object's
/// hit with nothing changed but its point, which is what `back` gives for
/// the point of the object's hit.
pub open spec fn shifted<H: Hittable, F: Fn(Point) -> Point>(
    object: H,
    local: Ray,
    t_min: Scalar,
    t_max: Scalar,
    back: F,
    rec: Option<HitRecord<H::Mat>>,
) -> bool {
    exists|inner: Option<HitRecord<H::Mat>>|
        {
            &&& #[trigger] object.admits_hit(local, t_min, t_max, inner)
            &&& match inner {
                None => rec is None,
                Some(h) => exists|p: Point|
                    #[trigger] back.ensures((h.p,), p) && rec == Some(spec_moved(h, p)),
            }
        }
}

/// Whether the box of `object`, changed by `change`, may be `b`: nothing for
/// an object without a box.
pub open spec fn boxed_through<H: Hittable, G: Fn(AABB) -> AABB>(
    object: H,
    time0: Scalar,
    time1: Scalar,
    change: G,
    b: Option<AABB>,
) -> bool {
    exists|inner: Option<AABB>|
        {
            &&& #[trigger] object.admits_box(time0, time1, inner)
            &&& match inner {
                None => b is None,
                Some(x) => exists|y: AABB| #[trigger] change.ensures((x,), y) && b == Some(y),
            }
        }
}

/// Hits `object` with the ray `local`, which is the ray as the object sees
/// it, and takes the point and the normal of the hit back by `back`.
pub fn hit_through<H: Hittable, F: Fn(Contact) -> Placed>(
    object: &H,
    local: &Ray,
    t_min: Scalar,
    t_max: Scalar,
    back: &F,
) -> (rec: Option<HitRecord<H::Mat>>)
    requires
        forall|c: Contact| back.requires((c,)),
    ensures
        carried(*object, *local, t_min, t_max, *back, rec),
{
    match object.hit(local, t_min, t_max) {
        None => None,
        Some(mut h) => {
            let ghost inner = h;
            let at = back(h.contact());
            h.p = at.p;
            h.normal = at.normal;
            proof {
                assert(h == spec_placed(inner, at));
            }
            Some(h)
        },
    }
}

/// The round trip of a moved object: where the object itself has one answer
/// to the ray moved back, the moved object is hit exactly when the object
/// is, and its hit is the object's in all but the point, which is the
/// object's point moved forth.
pub proof fn lemma_moved_hit_is_the_objects<H: Hittable, F: Fn(Point) -> Point>(
    object: H,
    local: Ray,
    t_min: Scalar,
    t_max: Scalar,
    back: F,
    inner: Option<HitRecord<H::Mat>>,
    rec: Option<HitRecord<H::Mat>>,
)
    requires
        forall|x: Option<HitRecord<H::Mat>>| #[trigger]
            object.admits_hit(local, t_min, t_max, x) ==> x == inner,
        shifted(object, local, t_min, t_max, back, rec),
    ensures
        rec is None <==> inner is None,
        rec matches Some(hit) ==> {
            &&& inner matches Some(h)
            &&& back.ensures((h.p,), hit.p)
            &&& hit.t == h.t
            &&& hit.normal == h.normal
            &&& hit.front_face == h.front_face
            &&& hit.u == h.u
            &&& hit.v == h.v
            &&& hit.material == h.material
        },
{
}

/// An object moved by an offset.
pub struct Translate<H> {
    pub object: H,
    pub offset: Vec3,
}

impl<H: Hittable> Translate<H> {
    pub fn new(object: H, offset: Vec3) -> (moved: Self)
        ensures
            moved.object == object,
            moved.offset == offset,
    {
        Translate { object, offset }
    }

    /// The box of the object, moved by `shift`, which adds the offset to
    /// both corners of a box.
    pub fn bounding_box<G: Fn(AABB) -> AABB>(
        &self,
        time0: Scalar,
        time1: Scalar,
        shift: &G,
    ) -> (b: Option<AABB>)
        requires
            forall|x: AABB| shift.requires((x,)),
        ensures
            boxed_through(self.object, time0, time1, *shift, b),
    {
        match self.object.bounding_box(time0, time1) {
            None => None,
            Some(x) => Some(shift(x)),
        }
    }

    /// The hit of a ray on the moved object: the hit of `local` on the
    /// object itself, with its point moved. `local` is the ray with its
    /// origin moved back by the offset; `back` moves a point forth by the
    /// offset. The parameter, the normal, the face, the texture coordinates
    /// and the material of the hit are those that the object gave.
    pub fn hit<F: Fn(Point) -> Point>(
        &self,
        local: &Ray,
        t_min: Scalar,
        t_max: Scalar,
        back: &F,
    ) -> (rec: Option<HitRecord<H::Mat>>)
        requires
            forall|p: Point| back.requires((p,)),
        ensures
            shifted(self.object, *local, t_min, t_max, *back, rec),
    {
        match self.object.hit(local, t_min, t_max) {
            None => None,
            Some(mut h) => {
                let ghost inner = h;
                let p = back(h.p);
                h.p = p;
                proof {
                    assert(h == spec_moved(inner, p));
                }
                Some(h)
            },
        }
    }
}

/// An object turned about the second axis by an angle of which the sine and
/// the cosine are kept, with the box of the turned object.
pub struct RotateY<H> {
    pub object: H,
    pub sin_theta: Scalar,
    pub cos_theta: Scalar,
    pub bbox: Option<AABB>,
}

/// Whether the box of the turned `object` may be `b`: nothing for an object
/// without a box between the times zero and one, and otherwise the box that
/// spans the turned corners of the object's box, which `turned` gives.
pub open spec fn turned_box<H: Hittable, G: Fn(AABB) -> [(Scalar, Scalar); 4]>(
    object: H,
    turned: G,
    b: Option<AABB>,
) -> bool {
    exists|inner: Option<AABB>|
        {
            &&& #[trigger] object.admits_box(Scalar { bits: 0 }, Scalar { bits: ONE_BITS }, inner)
            &&& match inner {
                None => b is None,
                Some(x) => exists|corners: [(Scalar, Scalar); 4]|
                    #[trigger] turned.ensures((x,), corners) && b == Some(
                        AABB::spec_spanning(x.min.y, x.max.y, corners@),
                    ),
            }
        }
}

impl<H: Hittable> RotateY<H> {
    /// The object turned by the angle with the given sine and cosine.
    /// `turned` gives, for the object's box, its four corners in the plane
    /// of the first and the third axis after the turn. The box of the turned
    /// object is computed here, once.
    pub fn new<G: Fn(AABB) -> [(Scalar, Scalar); 4]>(
        object: H,
        sin_theta: Scalar,
        cos_theta: Scalar,
        turned: &G,
    ) -> (rot: Self)
        requires
            forall|x: AABB| turned.requires((x,)),
        ensures
            rot.object == object,
            rot.sin_theta == sin_theta,
            rot.cos_theta == cos_theta,
            turned_box(object, *turned, rot.bbox),
    {
        let inner = object.bounding_box(Scalar::zero(), Scalar::from_bits(ONE_BITS));
        let bbox = match inner {
            None => None,
            Some(x) => {
                let corners = turned(x);
                proof {
                    assert(turned.ensures((x,), corners));
                }
                Some(AABB::spanning(x.min.y, x.max.y, &corners))
            },
        };
        proof {
            assert(object.admits_box(Scalar { bits: 0 }, Scalar { bits: ONE_BITS }, inner));
        }
        RotateY { object, sin_theta, cos_theta, bbox }
    }

    /// The box that was computed when the object was turned, whatever the
    /// time range.
    pub fn bounding_box(&self) -> (b: Option<AABB>)
        ensures
            b == self.bbox,
    {
        self.bbox
    }

    /// The hit of a ray on the turned object: the hit of `local` on the
    /// object itself, with its point and its normal turned. `local` is the
    /// ray turned back into the object's space; `back` turns the point and
    /// the normal of a hit forth. The face that the ray met stays what the
    /// object said.
    pub fn hit<F: Fn(Contact) -> Placed>(
        &self,
        local: &Ray,
        t_min: Scalar,
        t_max: Scalar,
        back: &F,
    ) -> (rec: Option<HitRecord<H::Mat>>)
        requires
            forall|c: Contact| back.requires((c,)),
        ensures
            carried(self.object, *local, t_min, t_max, *back, rec),
    {
        hit_through(&self.object, local, t_min, t_max, back)
    }
}

} // verus!
