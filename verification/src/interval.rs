//! Closed parameter intervals of a ray, and the choices that the geometric
//! solvers make against them.

use vstd::prelude::*;
use crate::scalar::Scalar;

verus! {

/// The parameters `t` of a ray with `t_min <= t <= t_max`.
#[derive(Clone, Copy, Debug)]
pub struct Interval {
    pub t_min: Scalar,
    pub t_max: Scalar,
}

impl Interval {
    /// Whether `t` is known to lie outside: below the lower or above the
    /// upper limit. A NaN is never known to lie outside.
    pub open spec fn spec_excludes(&self, t: Scalar) -> bool {
        t.spec_lt(self.t_min) || self.t_max.spec_lt(t)
    }

    /// The parameter at which a ray meets a sphere first within the
    /// interval. `discriminant` is that of the quadratic; `near` and `far`
    /// are its smaller and its larger root. A negative discriminant means
    /// that the ray passes the sphere by. Otherwise the smaller root is
    /// taken, the larger one only where the smaller lies outside, and none
    /// where both do.
    pub open spec fn spec_first_root(
        &self,
        discriminant: Scalar,
        near: Scalar,
        far: Scalar,
    ) -> Option<Scalar> {
        if discriminant.spec_lt(Scalar { bits: 0 }) {
            None
        } else if !self.spec_excludes(near) {
            Some(near)
        } else if !self.spec_excludes(far) {
            Some(far)
        } else {
            None
        }
    }

    /// The part of the interval in which a ray is inside a volume that it
    /// enters at `entry` and leaves at `exit`: from the later of `entry` and
    /// the lower limit, but not from before zero, to the earlier of `exit`
    /// and the upper limit. Nothing where the entry, raised to the lower
    /// limit, does not come before the exit.
    pub open spec fn spec_inside(&self, entry: Scalar, exit: Scalar) -> Option<Interval> {
        let from = entry.spec_max(self.t_min);
        let to = exit.spec_min(self.t_max);
        if to.spec_le(from) {
            None
        } else {
            Some(Interval { t_min: from.spec_max(Scalar { bits: 0 }), t_max: to })
        }
    }

    pub fn new(t_min: Scalar, t_max: Scalar) -> (i: Interval)
        ensures
            i.t_min == t_min,
            i.t_max == t_max,
    {
        Interval { t_min, t_max }
    }

    #[verifier::when_used_as_spec(spec_excludes)]
    pub fn excludes(&self, t: Scalar) -> (out: bool)
        ensures
            out == self.spec_excludes(t),
    {
        t.lt(self.t_min) || self.t_max.lt(t)
    }

    #[verifier::when_used_as_spec(spec_first_root)]
    pub fn first_root(&self, discriminant: Scalar, near: Scalar, far: Scalar) -> (root: Option<Scalar>)
        ensures
            root == self.spec_first_root(discriminant, near, far),
    {
        if discriminant.lt(Scalar::zero()) {
            None
        } else if !self.excludes(near) {
            Some(near)
        } else if !self.excludes(far) {
            Some(far)
        } else {
            None
        }
    }

    #[verifier::when_used_as_spec(spec_inside)]
    pub fn inside(&self, entry: Scalar, exit: Scalar) -> (span: Option<Interval>)
        ensures
            span == self.spec_inside(entry, exit),
    {
        let from = entry.max(self.t_min);
        let to = exit.min(self.t_max);
        if to.le(from) {
            None
        } else {
            Some(Interval { t_min: from.max(Scalar::zero()), t_max: to })
        }
    }
}

/// A root that is returned lies within the interval, and it is the smaller
/// one wherever that lies within; no root is returned for a negative
/// discriminant.
pub proof fn lemma_first_root_is_nearest(
    i: Interval,
    discriminant: Scalar,
    near: Scalar,
    far: Scalar,
)
    requires
        !near.nan(),
        !far.nan(),
    ensures
        discriminant.spec_lt(Scalar { bits: 0 }) ==> i.spec_first_root(discriminant, near, far)
            is None,
        i.spec_first_root(discriminant, near, far) matches Some(t) ==> {
            &&& i.t_min.nan() || i.t_min.spec_le(t)
            &&& i.t_max.nan() || t.spec_le(i.t_max)
            &&& t == near || (t == far && i.spec_excludes(near))
        },
        !discriminant.spec_lt(Scalar { bits: 0 }) && i.t_min.spec_le(near) && near.spec_le(i.t_max)
            ==> i.spec_first_root(discriminant, near, far) == Some(near),
{
}

/// The span inside a volume lies within the interval and within the
/// crossing, and starts no earlier than zero.
pub proof fn lemma_inside_is_within(i: Interval, entry: Scalar, exit: Scalar)
    requires
        !i.t_min.nan(),
        !i.t_max.nan(),
        !entry.nan(),
        !exit.nan(),
    ensures
        i.spec_inside(entry, exit) matches Some(span) ==> {
            &&& i.t_min.spec_le(span.t_min)
            &&& entry.spec_le(span.t_min)
            &&& span.t_min.spec_lt(span.t_max) || span.t_max.spec_le(Scalar { bits: 0 })
            &&& Scalar { bits: 0 }.spec_le(span.t_min)
            &&& span.t_max.spec_le(i.t_max)
            &&& span.t_max.spec_le(exit)
        },
        i.spec_inside(entry, exit) is None <==> exit.spec_min(i.t_max).spec_le(
            entry.spec_max(i.t_min),
        ),
{
}

} // verus!
