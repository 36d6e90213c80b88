//! The verified core of a path tracer.
//!
//! Scalars are carried as IEEE 754 binary64 bit patterns. The library orders
//! them, selects among them and moves them around; it performs no rounding
//! arithmetic on them. Where a decision rests on a sum, a product or a root,
//! the caller computes that and hands it in: as a value where it can be
//! computed beforehand, as a function where it depends on what the library
//! finds on its way.
//!
//! What the library holds is the part of the renderer that decides: the slab
//! test and the union of bounding boxes, the search for the nearest hit in a
//! list and in a bounding-volume hierarchy, the construction of that
//! hierarchy, the choice between the crossings of a ray with a sphere or a
//! rectangle, the way of a ray through moved and turned objects and through
//! a medium, the rules by which materials scatter, the lattice of the
//! gradient noise, and the walk of a ray from bounce to bounce. Objects,
//! materials and textures of other kinds come in through the traits
//! `Hittable`, `Material` and `Texture`.

pub mod aabb;
pub mod aarect;
pub mod agreement;
pub mod box3d;
pub mod bvh;
pub mod bvh_build;
pub mod color;
pub mod constant_medium;
pub mod hittable;
pub mod hittable_list;
pub mod integrator;
pub mod interval;
pub mod material;
pub mod perlin;
pub mod random;
pub mod ray;
pub mod rearrange;
pub mod scalar;
pub mod sphere;
pub mod texture;
pub mod transform;
pub mod vec3;

pub use crate::random::{thread_rng, Rng};
