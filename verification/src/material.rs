//! The capability of a surface to scatter and to emit light.

use vstd::prelude::*;
use crate::color::Color;
use crate::hittable::Contact;
use crate::random::Rng;
use crate::ray::Ray;
use crate::scalar::{Scalar, ONE_BITS};
use crate::texture::Texture;
use crate::vec3::{Point, Vec3};

verus! {

/// A material: what becomes of a ray that hits a surface of it.
///
/// An implementation may say which outcomes its methods admit; the
/// integrator states its own outcome in terms of them. The defaults admit
/// everything.
pub trait Material {
    /// Whether `scatter` may answer `out` for this ray and hit.
    open spec fn admits_scatter(&self, r_in: Ray, at: Contact, out: Option<(Ray, Color)>) -> bool {
        true
    }

    /// Whether `emitted` may answer `c` at this place of the surface.
    open spec fn admits_emitted(&self, u: Scalar, v: Scalar, p: Point, c: Color) -> bool {
        true
    }

    /// The scattered ray and the attenuation that it carries, or nothing
    /// where the ray is absorbed.
    fn scatter(&self, rng: &mut Rng, r_in: &Ray, at: &Contact) -> (out: Option<(Ray, Color)>)
        ensures
            self.admits_scatter(*r_in, *at, out),
    ;

    /// The light that the surface emits at the point `p` with the texture
    /// coordinates `(u, v)`.
    fn emitted(&self, u: Scalar, v: Scalar, p: &Point) -> (c: Color)
        ensures
            self.admits_emitted(u, v, *p, c),
    ;
}

/// A light: a surface that scatters nothing and emits what its texture
/// holds.
pub struct DiffuseLight<T: Texture> {
    pub emit: T,
}

impl<T: Texture> DiffuseLight<T> {
    pub fn new(emit: T) -> (light: Self)
        ensures
            light.emit == emit,
    {
        DiffuseLight { emit }
    }
}

impl<T: Texture> Material for DiffuseLight<T> {
    /// A light absorbs every ray.
    open spec fn admits_scatter(&self, r_in: Ray, at: Contact, out: Option<(Ray, Color)>) -> bool {
        out is None
    }

    /// A light emits the value of its texture.
    open spec fn admits_emitted(&self, u: Scalar, v: Scalar, p: Point, c: Color) -> bool {
        self.emit.admits_value(u, v, p, c)
    }

    fn scatter(&self, rng: &mut Rng, r_in: &Ray, at: &Contact) -> (out: Option<(Ray, Color)>)
        ensures
            *final(rng) == *old(rng),
    {
        None
    }

    fn emitted(&self, u: Scalar, v: Scalar, p: &Point) -> (c: Color) {
        self.emit.value(u, v, p)
    }
}

/// The direction in which a diffuse surface scatters: the candidate, which is
/// the normal plus a random offset, unless that is close to zero in every
/// component, in which case it is the normal itself.
pub open spec fn spec_diffuse_direction(candidate: Vec3, normal: Vec3) -> Vec3 {
    if candidate.spec_near_zero() {
        normal
    } else {
        candidate
    }
}

#[verifier::when_used_as_spec(spec_diffuse_direction)]
pub fn diffuse_direction(candidate: Vec3, normal: Vec3) -> (dir: Vec3)
    ensures
        dir == spec_diffuse_direction(candidate, normal),
{
    if candidate.near_zero() {
        normal
    } else {
        candidate
    }
}

/// Whether a reflecting surface sends a ray on: `facing` is the dot product
/// of the reflected, perturbed direction and the normal, and the ray is
/// absorbed unless the direction points away from the surface.
pub open spec fn spec_leaves_surface(facing: Scalar) -> bool {
    (Scalar { bits: 0 }).spec_lt(facing)
}

#[verifier::when_used_as_spec(spec_leaves_surface)]
pub fn leaves_surface(facing: Scalar) -> (leaves: bool)
    ensures
        leaves == spec_leaves_surface(facing),
{
    Scalar::zero().lt(facing)
}

/// Whether a ray cannot be refracted and is reflected whole: `scaled_sine`
/// is the sine of the angle of incidence times the refraction ratio, and no
/// refracted direction exists where it exceeds one.
pub open spec fn spec_cannot_refract(scaled_sine: Scalar) -> bool {
    (Scalar { bits: ONE_BITS }).spec_lt(scaled_sine)
}

#[verifier::when_used_as_spec(spec_cannot_refract)]
pub fn cannot_refract(scaled_sine: Scalar) -> (whole: bool)
    ensures
        whole == spec_cannot_refract(scaled_sine),
{
    Scalar::from_bits(ONE_BITS).lt(scaled_sine)
}

/// Whether a ray that could be refracted is reflected all the same: it is
/// where the uniform `draw` falls below the reflectance.
pub open spec fn spec_reflects_by_chance(reflectance: Scalar, draw: Scalar) -> bool {
    draw.spec_lt(reflectance)
}

#[verifier::when_used_as_spec(spec_reflects_by_chance)]
pub fn reflects_by_chance(reflectance: Scalar, draw: Scalar) -> (reflects: bool)
    ensures
        reflects == spec_reflects_by_chance(reflectance, draw),
{
    draw.lt(reflectance)
}

/// A diffuse surface: it scatters every ray, about its normal, and dims it
/// by its texture.
pub struct Lambertian<T: Texture> {
    pub albedo: T,
}

impl<T: Texture> Lambertian<T> {
    pub fn new(albedo: T) -> (m: Self)
        ensures
            m.albedo == albedo,
    {
        Lambertian { albedo }
    }

    /// The scattered ray and its attenuation. `candidate` is the normal at
    /// the hit plus a random point of the unit sphere; the ray leaves the
    /// hit in that direction, or along the normal where the candidate is
    /// close to zero, at the time `time`, and is dimmed by the texture's
    /// value at the hit.
    pub fn scatter(&self, at: &Contact, candidate: Vec3, time: Scalar) -> (out: (Ray, Color))
        ensures
            out.0 == (Ray {
                orig: at.p,
                dir: spec_diffuse_direction(candidate, at.normal),
                time,
            }),
            self.albedo.admits_value(at.u, at.v, at.p, out.1),
    {
        let direction = diffuse_direction(candidate, at.normal);
        (Ray::new(at.p, direction, time), self.albedo.value(at.u, at.v, &at.p))
    }
}

/// A reflecting surface of one color, the rougher the larger `fuzz` is.
#[derive(Clone, Copy, Debug)]
pub struct Metal {
    pub albedo: Color,
    pub fuzz: Scalar,
}

impl Metal {
    pub fn new(albedo: Color, fuzz: Scalar) -> (m: Self)
        ensures
            m.albedo == albedo,
            m.fuzz == fuzz,
    {
        Metal { albedo, fuzz }
    }

    /// The scattered ray and its attenuation, or nothing where the ray is
    /// absorbed. `direction` is the reflection of the incoming direction,
    /// perturbed by the fuzz, and `facing` its dot product with the normal:
    /// the ray is absorbed unless it leaves the surface.
    pub fn scatter(&self, at: &Contact, direction: Vec3, facing: Scalar, time: Scalar) -> (out: Option<(Ray, Color)>)
        ensures
            out == if spec_leaves_surface(facing) {
                Some((Ray { orig: at.p, dir: direction, time }, self.albedo))
            } else {
                None
            },
    {
        if leaves_surface(facing) {
            Some((Ray::new(at.p, direction, time), self.albedo))
        } else {
            None
        }
    }
}

/// A clear surface, such as glass, with its index of refraction.
#[derive(Clone, Copy, Debug)]
pub struct Dielectric {
    pub ri: Scalar,
}

impl Dielectric {
    pub fn new(refraction_index: Scalar) -> (m: Self)
        ensures
            m.ri == refraction_index,
    {
        Dielectric { ri: refraction_index }
    }

    /// The ratio of the indices of refraction on the two sides of a hit:
    /// the index itself for a ray that leaves the material, and `inverse`,
    /// its reciprocal, for a ray that enters it through a front face.
    pub fn refraction_ratio(&self, front_face: bool, inverse: Scalar) -> (ratio: Scalar)
        ensures
            ratio == if front_face { inverse } else { self.ri },
    {
        if front_face {
            inverse
        } else {
            self.ri
        }
    }

    /// Whether the scattered direction may be `dir`. `scaled_sine` is the
    /// sine of the angle of incidence times the refraction ratio, and
    /// `reflectance` the share of the light that the surface reflects at
    /// that angle. A ray that cannot be refracted is reflected, and no
    /// number is drawn for it. For any other ray `draw` gives a uniform
    /// number, and the ray is reflected where that falls below the
    /// reflectance, and refracted where it does not.
    pub open spec fn bends<D: FnOnce() -> Scalar>(
        scaled_sine: Scalar,
        reflectance: Scalar,
        draw: D,
        reflected: Vec3,
        refracted: Vec3,
        dir: Vec3,
    ) -> bool {
        if spec_cannot_refract(scaled_sine) {
            dir == reflected
        } else {
            exists|u: Scalar| #[trigger]
                draw.ensures((), u) && dir == if spec_reflects_by_chance(reflectance, u) {
                    reflected
                } else {
                    refracted
                }
        }
    }

    /// The scattered ray and its attenuation: the ray leaves the hit in the
    /// reflected or in the refracted direction, as `bends` says, at the
    /// time `time`, and nothing of it is absorbed.
    pub fn scatter<D: FnOnce() -> Scalar>(
        &self,
        at: &Contact,
        scaled_sine: Scalar,
        reflectance: Scalar,
        draw: D,
        reflected: Vec3,
        refracted: Vec3,
        time: Scalar,
    ) -> (out: (Ray, Color))
        requires
            draw.requires(()),
        ensures
            out.0.orig == at.p,
            out.0.time == time,
            Self::bends(scaled_sine, reflectance, draw, reflected, refracted, out.0.dir),
            out.1 == Color::white(),
    {
        let reflects = if cannot_refract(scaled_sine) {
            true
        } else {
            let u = draw();
            reflects_by_chance(reflectance, u)
        };
        let direction = if reflects {
            reflected
        } else {
            refracted
        };
        let one = Scalar::from_bits(ONE_BITS);
        (Ray::new(at.p, direction, time), Color::new(one, one, one))
    }
}

/// The material of a medium: it scatters a ray in any direction, and dims
/// it by its texture.
pub struct Isotropic<T: Texture> {
    pub albedo: T,
}

impl<T: Texture> Isotropic<T> {
    pub fn new(albedo: T) -> (m: Self)
        ensures
            m.albedo == albedo,
    {
        Isotropic { albedo }
    }

    /// The scattered ray and its attenuation: the ray leaves the hit in
    /// `direction`, which is a random point of the unit sphere, and is
    /// dimmed by the texture's value at the hit.
    pub fn scatter(&self, at: &Contact, direction: Vec3, time: Scalar) -> (out: (Ray, Color))
        ensures
            out.0 == (Ray { orig: at.p, dir: direction, time }),
            self.albedo.admits_value(at.u, at.v, at.p, out.1),
    {
        (Ray::new(at.p, direction, time), self.albedo.value(at.u, at.v, &at.p))
    }
}

} // verus!
