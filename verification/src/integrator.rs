//! The path-tracing integrator: the walk of a ray through the scene, from
//! bounce to bounce, until it is absorbed, leaves the scene or runs out of
//! depth.

use vstd::prelude::*;
use crate::color::Color;
use crate::hittable::{HitRecord, Hittable};
use crate::material::Material;
use crate::random::Rng;
use crate::ray::Ray;
use crate::scalar::{Scalar, INFINITY_BITS};

verus! {

/// The pattern of `0.001`, the smallest parameter at which a bounce may hit
/// again: it keeps a scattered ray from hitting the surface that it left.
pub const SHADOW_BIAS_BITS: u64 = 0x3f50_624d_d2f1_a9fc;

/// How the walk of a ray ends: it has no bounce left to spend, it leaves the
/// scene, or a material absorbs it.
#[derive(Clone, Copy, Debug, PartialEq, Eq, Structural)]
pub enum Ending {
    OutOfDepth,
    Missed,
    Absorbed,
}

/// The walk of one ray: the attenuations of its bounces, the last bounce
/// first, the radiance at its end, and the way it ended. The radiance that
/// the ray brings back is the end's radiance, multiplied channel by channel
/// with each attenuation in turn.
#[derive(Debug)]
pub struct Path {
    pub attenuations: Vec<Color>,
    pub radiance: Color,
    pub ending: Ending,
}

/// Whether one bounce of `r` may go thus: the scene answers `rec`; where that
/// is a hit, its material answers `out` to the ray; and where the ray is
/// absorbed, the material emits `glow`.
pub open spec fn bounced<W: Hittable>(
    world: W,
    r: Ray,
    rec: Option<HitRecord<W::Mat>>,
    out: Option<(Ray, Color)>,
    glow: Color,
) -> bool where W::Mat: Material {
    &&& world.admits_hit(r, Scalar { bits: SHADOW_BIAS_BITS }, Scalar { bits: INFINITY_BITS }, rec)
    &&& rec matches Some(hit) ==> {
        &&& hit.material.admits_scatter(r, hit.contact(), out)
        &&& out is None ==> hit.material.admits_emitted(hit.u, hit.v, hit.p, glow)
    }
}

/// Whether a walk of `r` with `depth` bounces to spend may give these
/// attenuations, this radiance and this ending. Without depth the walk ends
/// in black. A ray that hits nothing ends in the background. A ray that is
/// absorbed ends in what the material emits there, and a ray that is
/// scattered walks on with one bounce less, its attenuation coming last.
pub open spec fn walked<W: Hittable>(
    world: W,
    r: Ray,
    background: Color,
    depth: int,
    attenuations: Seq<Color>,
    radiance: Color,
    ending: Ending,
) -> bool where W::Mat: Material
    decreases depth,
{
    if depth <= 0 {
        attenuations.len() == 0 && radiance == Color::black() && ending == Ending::OutOfDepth
    } else {
        exists|rec: Option<HitRecord<W::Mat>>, out: Option<(Ray, Color)>, glow: Color|
            {
                &&& #[trigger] bounced(world, r, rec, out, glow)
                &&& match (rec, out) {
                    (None, _) => attenuations.len() == 0 && radiance == background && ending
                        == Ending::Missed,
                    (Some(_), None) => attenuations.len() == 0 && radiance == glow && ending
                        == Ending::Absorbed,
                    (Some(_), Some((scattered, attenuation))) => {
                        &&& attenuations.len() > 0
                        &&& attenuations.last() == attenuation
                        &&& walked(
                            world,
                            scattered,
                            background,
                            depth - 1,
                            attenuations.drop_last(),
                            radiance,
                            ending,
                        )
                    },
                }
            }
    }
}

/// Whether the scene has nothing to answer to a bounce of `r` but that it
/// is not hit.
pub open spec fn misses<W: Hittable>(world: W, r: Ray) -> bool {
    forall|rec: Option<HitRecord<W::Mat>>| #[trigger]
        world.admits_hit(r, Scalar { bits: SHADOW_BIAS_BITS }, Scalar { bits: INFINITY_BITS }, rec)
            ==> rec is None
}

/// Walks `r` through `world` for at most `depth` bounces, against a
/// background of one color, and returns the attenuations met and the
/// radiance at the end. The generator is drawn from by the materials alone:
/// a walk without depth, and a walk that ends at once because the scene is
/// not hit, leave it as it was. The ending tells such a walk from one that
/// ends at once because the ray is absorbed.
pub fn ray_color<W: Hittable>(
    rng: &mut Rng,
    r: &Ray,
    background: Color,
    world: &W,
    depth: i32,
) -> (path: Path) where W::Mat: Material
    ensures
        walked(
            *world,
            *r,
            background,
            depth as int,
            path.attenuations@,
            path.radiance,
            path.ending,
        ),
        path.attenuations@.len() <= depth || depth < 0 && path.attenuations@.len() == 0,
        depth <= 0 ==> *final(rng) == *old(rng),
        misses(*world, *r) ==> *final(rng) == *old(rng),
        path.attenuations@.len() == 0 && path.ending != Ending::Absorbed ==> *final(rng) == *old(
            rng,
        ),
    decreases depth,
{
    if depth <= 0 {
        return Path {
            attenuations: Vec::new(),
            radiance: Color::default(),
            ending: Ending::OutOfDepth,
        };
    }
    let found = world.hit(r, Scalar::from_bits(SHADOW_BIAS_BITS), Scalar::infinity());
    match found {
        Some(rec) => {
            let out = rec.material.scatter(rng, r, &rec.contact());
            match out {
                Some((scattered, attenuation)) => {
                    let mut path = ray_color(rng, &scattered, background, world, depth - 1);
                    let ghost rest = path.attenuations@;
                    path.attenuations.push(attenuation);
                    proof {
                        assert(path.attenuations@.drop_last() =~= rest);
                        assert(bounced(*world, *r, found, out, Color::black()));
                    }
                    path
                },
                None => {
                    let glow = rec.material.emitted(rec.u, rec.v, &rec.p);
                    proof {
                        assert(bounced(*world, *r, found, out, glow));
                    }
                    Path { attenuations: Vec::new(), radiance: glow, ending: Ending::Absorbed }
                },
            }
        },
        None => {
            proof {
                let none: Option<(Ray, Color)> = None;
                assert(bounced(*world, *r, found, none, Color::black()));
            }
            Path { attenuations: Vec::new(), radiance: background, ending: Ending::Missed }
        },
    }
}

} // verus!
