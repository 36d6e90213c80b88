//! Textures, and the lookup into an image that is laid over a surface.

use vstd::prelude::*;
use crate::color::Color;
use crate::scalar::Scalar;
use crate::vec3::Point;

verus! {

/// A texture: a color for every place on a surface.
///
/// An implementation may say which colors `value` admits; the default admits
/// every color.
pub trait Texture {
    /// Whether `value` may answer `c` at this place.
    open spec fn admits_value(&self, u: Scalar, v: Scalar, p: Point, c: Color) -> bool {
        true
    }

    /// The color at the point `p` with the texture coordinates `(u, v)`.
    fn value(&self, u: Scalar, v: Scalar, p: &Point) -> (c: Color)
        ensures
            self.admits_value(u, v, *p, c),
    ;
}

/// The texture of one color.
pub struct SolidColor {
    pub color: Color,
}

impl SolidColor {
    pub fn new(color: Color) -> (t: Self)
        ensures
            t.color == color,
    {
        SolidColor { color }
    }

    pub fn new_rgb(r: Scalar, g: Scalar, b: Scalar) -> (t: Self)
        ensures
            t.color == (Color { r, g, b }),
    {
        SolidColor { color: Color::new(r, g, b) }
    }
}

impl Texture for SolidColor {
    /// The one color, everywhere.
    open spec fn admits_value(&self, u: Scalar, v: Scalar, p: Point, c: Color) -> bool {
        c == self.color
    }

    fn value(&self, u: Scalar, v: Scalar, p: &Point) -> (c: Color) {
        self.color
    }
}

/// A pattern of two textures that alternate in space.
pub struct CheckerTexture<A: Texture, B: Texture> {
    pub odd: A,
    pub even: B,
}

impl<A: Texture, B: Texture> CheckerTexture<A, B> {
    pub fn new_with_texture(odd: A, even: B) -> (t: Self)
        ensures
            t.odd == odd,
            t.even == even,
    {
        CheckerTexture { odd, even }
    }

    /// Whether the color `c` may be the pattern's at a place where the
    /// product of the sines of the scaled coordinates is `sines`: the odd
    /// texture's where the product is negative, the even texture's in every
    /// other case.
    pub open spec fn admits_checked(&self, sines: Scalar, u: Scalar, v: Scalar, p: Point, c: Color) -> bool {
        if sines.spec_lt(Scalar { bits: 0 }) {
            self.odd.admits_value(u, v, p, c)
        } else {
            self.even.admits_value(u, v, p, c)
        }
    }

    /// The color at the point `p`, where the product of the sines of the
    /// scaled coordinates is `sines`.
    pub fn value(&self, sines: Scalar, u: Scalar, v: Scalar, p: &Point) -> (c: Color)
        ensures
            self.admits_checked(sines, u, v, *p, c),
    {
        if sines.lt(Scalar::zero()) {
            self.odd.value(u, v, p)
        } else {
            self.even.value(u, v, p)
        }
    }
}

impl CheckerTexture<SolidColor, SolidColor> {
    /// The pattern of two colors.
    pub fn new(c1: Color, c2: Color) -> (t: Self)
        ensures
            t.odd.color == c1,
            t.even.color == c2,
    {
        CheckerTexture { odd: SolidColor::new(c1), even: SolidColor::new(c2) }
    }
}

/// The row or column of the texel for a texture coordinate that has been
/// scaled to the image's extent and cut to a whole number: the last one for
/// every coordinate at or beyond the extent. The image must not be empty.
pub fn texel_index(scaled: u32, extent: u32) -> (index: u32)
    requires
        extent > 0,
    ensures
        index < extent,
        index == if scaled < extent { scaled } else { (extent - 1) as u32 },
{
    if scaled < extent {
        scaled
    } else {
        extent - 1
    }
}

} // verus!
