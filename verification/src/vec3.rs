//! Three-component vectors and points.

use vstd::prelude::*;
use crate::scalar::Scalar;

verus! {

/// The pattern of `1e-8`, below which a component counts as zero.
pub const NEAR_ZERO_BITS: u64 = 0x3e45_798e_e230_8c3a;

/// A vector of three scalars.
#[derive(Clone, Copy, Debug)]
pub struct Vec3 {
    pub x: Scalar,
    pub y: Scalar,
    pub z: Scalar,
}

/// A point of space, by its three coordinates.
pub type Point = Vec3;

impl Vec3 {
    /// The component on axis 0, 1 or 2.
    pub open spec fn spec_axis(self, i: usize) -> Scalar {
        if i == 0 {
            self.x
        } else if i == 1 {
            self.y
        } else {
            self.z
        }
    }

    /// Whether no component is NaN.
    pub open spec fn is_number(self) -> bool {
        !self.x.nan() && !self.y.nan() && !self.z.nan()
    }

    pub open spec fn spec_neg(self) -> Vec3 {
        Vec3 { x: self.x.spec_neg(), y: self.y.spec_neg(), z: self.z.spec_neg() }
    }

    /// Whether every component is smaller in absolute value than `1e-8`.
    pub open spec fn spec_near_zero(&self) -> bool {
        let eps = Scalar { bits: NEAR_ZERO_BITS };
        self.x.spec_abs().spec_lt(eps) && self.y.spec_abs().spec_lt(eps) && self.z.spec_abs().spec_lt(
            eps,
        )
    }

    /// The sample turned into the hemisphere about a normal: the sample
    /// itself where `facing`, its dot product with the normal, is positive,
    /// and its opposite in every other case.
    pub open spec fn spec_in_hemisphere(self, facing: Scalar) -> Vec3 {
        if (Scalar { bits: 0 }).spec_lt(facing) {
            self
        } else {
            self.spec_neg()
        }
    }

    pub fn new(x: Scalar, y: Scalar, z: Scalar) -> (v: Vec3)
        ensures
            v.x == x,
            v.y == y,
            v.z == z,
    {
        Vec3 { x, y, z }
    }

    /// The vector with all three components equal to `x`.
    pub fn new_eq(x: Scalar) -> (v: Vec3)
        ensures
            v.x == x,
            v.y == x,
            v.z == x,
    {
        Vec3 { x, y: x, z: x }
    }

    /// The vector along the first axis with length `x`.
    pub fn x(x: Scalar) -> (v: Vec3)
        ensures
            v.x == x,
            v.y.bits == 0,
            v.z.bits == 0,
    {
        Vec3 { x, y: Scalar::zero(), z: Scalar::zero() }
    }

    /// The vector along the second axis with length `y`.
    pub fn y(y: Scalar) -> (v: Vec3)
        ensures
            v.x.bits == 0,
            v.y == y,
            v.z.bits == 0,
    {
        Vec3 { x: Scalar::zero(), y, z: Scalar::zero() }
    }

    /// The vector along the third axis with length `z`.
    pub fn z(z: Scalar) -> (v: Vec3)
        ensures
            v.x.bits == 0,
            v.y.bits == 0,
            v.z == z,
    {
        Vec3 { x: Scalar::zero(), y: Scalar::zero(), z }
    }

    #[verifier::when_used_as_spec(spec_axis_at)]
    pub fn axis(&self, i: usize) -> (c: Scalar)
        requires
            i < 3,
        ensures
            c == self.spec_axis(i),
    {
        if i == 0 {
            self.x
        } else if i == 1 {
            self.y
        } else {
            self.z
        }
    }

    pub open spec fn spec_axis_at(&self, i: usize) -> Scalar {
        self.spec_axis(i)
    }

    #[verifier::when_used_as_spec(spec_neg)]
    pub fn neg(self) -> (v: Vec3)
        ensures
            v == self.spec_neg(),
    {
        Vec3 { x: self.x.neg(), y: self.y.neg(), z: self.z.neg() }
    }

    #[verifier::when_used_as_spec(spec_in_hemisphere)]
    pub fn in_hemisphere(self, facing: Scalar) -> (v: Vec3)
        ensures
            v == self.spec_in_hemisphere(facing),
    {
        if Scalar::zero().lt(facing) {
            self
        } else {
            self.neg()
        }
    }

    #[verifier::when_used_as_spec(spec_near_zero)]
    pub fn near_zero(&self) -> (b: bool)
        ensures
            b == self.spec_near_zero(),
    {
        let eps = Scalar::from_bits(NEAR_ZERO_BITS);
        self.x.abs().lt(eps) && self.y.abs().lt(eps) && self.z.abs().lt(eps)
    }
}

impl Default for Vec3 {
    fn default() -> (v: Vec3)
        ensures
            v.x.bits == 0,
            v.y.bits == 0,
            v.z.bits == 0,
    {
        Vec3 { x: Scalar::zero(), y: Scalar::zero(), z: Scalar::zero() }
    }
}

} // verus!
