//! Rays: an origin, a direction and the time at which the ray is cast.

use vstd::prelude::*;
use crate::scalar::Scalar;
use crate::vec3::{Point, Vec3};

verus! {

/// A ray: the points `orig + t * dir` for the parameters `t`, at one time.
#[derive(Clone, Copy, Debug)]
pub struct Ray {
    pub orig: Point,
    pub dir: Vec3,
    pub time: Scalar,
}

impl Ray {
    pub fn new(orig: Point, dir: Vec3, time: Scalar) -> (r: Ray)
        ensures
            r.orig == orig,
            r.dir == dir,
            r.time == time,
    {
        Ray { orig, dir, time }
    }
}

impl Default for Ray {
    fn default() -> (r: Ray)
        ensures
            r.time.bits == 0,
            r.orig.x.bits == 0 && r.orig.y.bits == 0 && r.orig.z.bits == 0,
            r.dir.x.bits == 0 && r.dir.y.bits == 0 && r.dir.z.bits == 0,
    {
        Ray { orig: Vec3::default(), dir: Vec3::default(), time: Scalar::zero() }
    }
}

} // verus!
