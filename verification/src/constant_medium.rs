//! A medium of constant density within a boundary: a ray that crosses it is
//! scattered somewhere inside, or passes through.
//!
//! The medium knows one way in and one way out: a boundary that a ray can
//! enter twice is treated as if it ended at the first exit.

use vstd::pervasive::cloned;
use vstd::prelude::*;
use crate::aabb::AABB;
use crate::hittable::{HitRecord, Hittable};
use crate::interval::Interval;
use crate::ray::Ray;
use crate::scalar::{Scalar, INFINITY_BITS, ONE_BITS, SIGN_BIT};
use crate::vec3::{Point, Vec3};

verus! {

/// How far a ray gets in a medium: the length of its free path, the length
/// that it has to go inside the medium, and the parameter and the point at
/// which the free path ends.
#[derive(Clone, Copy, Debug)]
pub struct Travel {
    pub free_path: Scalar,
    pub inside: Scalar,
    pub t: Scalar,
    pub p: Point,
}

/// A medium within `boundary` that scatters by the material `phase`.
/// `neg_inv_density` is the negative reciprocal of its density.
pub struct ConstantMedium<B: Hittable> {
    pub boundary: B,
    pub phase: B::Mat,
    pub neg_inv_density: Scalar,
}

/// The record of a scattering at the end of the free path, made from the
/// record of the ray's entry into the medium.
pub open spec fn scatters_at<M: Clone>(hit: HitRecord<M>, entry: HitRecord<M>, way: Travel, phase: M) -> bool {
    &&& hit.t == way.t
    &&& hit.p == way.p
    &&& hit.front_face
    &&& hit.normal == (Vec3 { x: Scalar { bits: ONE_BITS }, y: Scalar { bits: 0 }, z: Scalar { bits: 0 } })
    &&& hit.u == entry.u
    &&& hit.v == entry.v
    &&& cloned(phase, hit.material)
}

/// Whether a ray that enters the boundary by `entry` and leaves it by `exit`
/// may end as `rec` within `limits`: nowhere where it is not inside within
/// the limits, or where its free path is longer than its way inside, and
/// otherwise at the end of its free path. `travel` gives the free path for
/// the ray and the span in which it is inside.
pub open spec fn crossed<M: Clone, T: Fn(Ray, Interval) -> Travel>(
    r: Ray,
    limits: Interval,
    entry: HitRecord<M>,
    exit: HitRecord<M>,
    travel: T,
    phase: M,
    rec: Option<HitRecord<M>>,
) -> bool {
    match limits.spec_inside(entry.t, exit.t) {
        None => rec is None,
        Some(span) => exists|way: Travel|
            {
                &&& #[trigger] travel.ensures((r, span), way)
                &&& if passes(way.free_path, way.inside) {
                    rec is None
                } else {
                    rec matches Some(hit) && scatters_at(hit, entry, way, phase)
                }
            },
    }
}

/// Whether a ray may end as `rec` in the medium within `boundary`. The
/// boundary is asked for the ray's entry anywhere on its line, and for its
/// exit from the parameter on that `beyond` gives for the entry's: a little
/// after it. Without both the ray is not in the medium.
pub open spec fn immersed<B: Hittable, A: Fn(Scalar) -> Scalar, T: Fn(Ray, Interval) -> Travel>(
    boundary: B,
    phase: B::Mat,
    r: Ray,
    limits: Interval,
    beyond: A,
    travel: T,
    rec: Option<HitRecord<B::Mat>>,
) -> bool where B::Mat: Clone {
    exists|first: Option<HitRecord<B::Mat>>|
        {
            &&& #[trigger] boundary.admits_hit(
                r,
                Scalar { bits: (INFINITY_BITS + SIGN_BIT) as u64 },
                Scalar { bits: INFINITY_BITS },
                first,
            )
            &&& match first {
                None => rec is None,
                Some(entry) => exists|from: Scalar, second: Option<HitRecord<B::Mat>>|
                    {
                        &&& #[trigger] beyond.ensures((entry.t,), from)
                        &&& #[trigger] boundary.admits_hit(r, from, Scalar { bits: INFINITY_BITS }, second)
                        &&& match second {
                            None => rec is None,
                            Some(exit) => crossed(r, limits, entry, exit, travel, phase, rec),
                        }
                    },
            }
        }
}

/// Whether a ray with this free path passes through a medium in which it
/// has `inside` to go: it does where the free path is the longer of the two.
pub open spec fn passes(free_path: Scalar, inside: Scalar) -> bool {
    inside.spec_lt(free_path)
}

/// The two ends of the scale of densities. In a medium without density the
/// free path is infinite, and a ray passes through any finite stretch of
/// it. In a medium of infinite density the free path is zero, and a ray is
/// scattered as soon as it has any way to go inside, at the very entry.
pub proof fn lemma_free_path_extremes(free_path: Scalar, inside: Scalar)
    requires
        !inside.nan(),
    ensures
        free_path.bits == INFINITY_BITS && inside.bits != INFINITY_BITS ==> passes(free_path, inside),
        free_path.rank() == 0 && !free_path.nan() && (Scalar { bits: 0 }).spec_le(inside) ==> !passes(
            free_path,
            inside,
        ),
{
}

impl<B: Hittable> ConstantMedium<B> {
    pub fn new(boundary: B, neg_inv_density: Scalar, phase: B::Mat) -> (medium: Self)
        ensures
            medium.boundary == boundary,
            medium.neg_inv_density == neg_inv_density,
            medium.phase == phase,
    {
        ConstantMedium { boundary, phase, neg_inv_density }
    }

    /// The box of the boundary.
    pub fn bounding_box(&self, time0: Scalar, time1: Scalar) -> (b: Option<AABB>)
        ensures
            self.boundary.admits_box(time0, time1, b),
    {
        self.boundary.bounding_box(time0, time1)
    }

    /// The scattering of a ray in the medium with its parameter in
    /// `[t_min, t_max]`, if there is one. `beyond` gives a parameter a little
    /// after the one it is given, and `travel` draws the free path of the
    /// ray for the span in which it is inside the medium.
    pub fn hit<A: Fn(Scalar) -> Scalar, T: Fn(Ray, Interval) -> Travel>(
        &self,
        r: &Ray,
        t_min: Scalar,
        t_max: Scalar,
        beyond: &A,
        travel: &T,
    ) -> (rec: Option<HitRecord<B::Mat>>) where B::Mat: Clone
        requires
            forall|t: Scalar| beyond.requires((t,)),
            forall|q: Ray, span: Interval| travel.requires((q, span)),
        ensures
            immersed(
                self.boundary,
                self.phase,
                *r,
                Interval { t_min, t_max },
                *beyond,
                *travel,
                rec,
            ),
    {
        let lowest = Scalar::neg_infinity();
        let highest = Scalar::infinity();
        let limits = Interval::new(t_min, t_max);
        proof {
            assert(lowest == Scalar { bits: (INFINITY_BITS + SIGN_BIT) as u64 });
            assert(highest == Scalar { bits: INFINITY_BITS });
            assert(limits == Interval { t_min, t_max });
        }
        let first = self.boundary.hit(r, lowest, highest);
        let ghost found_first = first;
        proof {
            assert(self.boundary.admits_hit(*r, lowest, highest, found_first));
        }
        match first {
            None => None,
            Some(entry) => {
                let ghost at_entry = entry;
                let from = beyond(entry.t);
                let second = self.boundary.hit(r, from, highest);
                let ghost found_second = second;
                proof {
                    assert(beyond.ensures((at_entry.t,), from));
                    assert(self.boundary.admits_hit(*r, from, highest, found_second));
                }
                match second {
                    None => None,
                    Some(exit) => {
                        match limits.inside(entry.t, exit.t) {
                            None => None,
                            Some(span) => {
                                let way = travel(*r, span);
                                let rec = entry.scattered_in_medium(
                                    way.free_path,
                                    way.inside,
                                    way.t,
                                    way.p,
                                    self.phase.clone(),
                                );
                                proof {
                                    assert(travel.ensures((*r, span), way));
                                    assert(crossed(
                                        *r,
                                        limits,
                                        at_entry,
                                        exit,
                                        *travel,
                                        self.phase,
                                        rec,
                                    ));
                                }
                                rec
                            },
                        }
                    },
                }
            },
        }
    }
}

} // verus!
