//! Linear RGB radiance and attenuation triples.

use vstd::prelude::*;
use crate::scalar::{Scalar, ONE_BITS};
use crate::vec3::Vec3;

verus! {

/// A color by its red, green and blue channel.
#[derive(Clone, Copy, Debug)]
pub struct Color {
    pub r: Scalar,
    pub g: Scalar,
    pub b: Scalar,
}

impl Color {
    pub fn new(r: Scalar, g: Scalar, b: Scalar) -> (c: Color)
        ensures
            c.r == r,
            c.g == g,
            c.b == b,
    {
        Color { r, g, b }
    }

    /// The color whose channels are the components of `v`, in order.
    pub fn new_from_vec3(v: Vec3) -> (c: Color)
        ensures
            c.r == v.x,
            c.g == v.y,
            c.b == v.z,
    {
        Color { r: v.x, g: v.y, b: v.z }
    }

    /// White: all channels one.
    pub open spec fn white() -> Color {
        Color {
            r: Scalar { bits: ONE_BITS },
            g: Scalar { bits: ONE_BITS },
            b: Scalar { bits: ONE_BITS },
        }
    }

    /// Black: all channels positive zero.
    pub open spec fn black() -> Color {
        Color { r: Scalar { bits: 0 }, g: Scalar { bits: 0 }, b: Scalar { bits: 0 } }
    }
}

impl Default for Color {
    fn default() -> (c: Color)
        ensures
            c == Color::black(),
    {
        Color { r: Scalar::zero(), g: Scalar::zero(), b: Scalar::zero() }
    }
}

} // verus!
