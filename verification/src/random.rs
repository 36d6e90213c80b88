//! The random source, and the integer draws that the library takes from it.

use vstd::prelude::*;

verus! {

#[verifier::external_type_specification]
#[verifier::external_body]
pub struct ExXoshiro256PlusPlus(rand_xoshiro::Xoshiro256PlusPlus);

/// The generator that the library draws from. One generator is handed by
/// reference to every function that needs randomness, so that a seed fixes the
/// order of all draws.
pub type Rng = rand_xoshiro::Xoshiro256PlusPlus;

/// The seed of the generator that `thread_rng` gives.
pub const SEED: u64 = 42;

/// The generator that `rand_core::SeedableRng::seed_from_u64` gives for a
/// seed. It is made from the seed alone, by arithmetic that is the same on
/// every machine; what its state is, is not said here.
pub uninterp spec fn seeded_generator(seed: u64) -> Rng;

/// A generator from `rand_core::SeedableRng::seed_from_u64`, which for this
/// generator fills the state from the seed by another, simpler generator
/// and cannot fail. The result is the one that the seed determines.
#[verifier::external_body]
fn seeded(seed: u64) -> (rng: Rng)
    ensures
        rng == seeded_generator(seed),
{
    rand::SeedableRng::seed_from_u64(seed)
}

/// One draw of `rand::Rng::gen_range` on the inclusive range `low..=high` of
/// 32-bit signed integers, which must not be empty. The draw lies in the
/// range; which of its values comes is left open.
#[verifier::external_body]
fn draw_inclusive(rng: &mut Rng, low: i32, high: i32) -> (drawn: i32)
    requires
        low <= high,
    ensures
        low <= drawn <= high,
{
    rand::Rng::gen_range(rng, low..=high)
}

/// One draw of `rand::Rng::gen_range` on the half-open range `low..high` of
/// unsigned integers of pointer width, which must not be empty. The draw lies
/// in the range; which of its values comes is left open.
#[verifier::external_body]
fn draw_exclusive(rng: &mut Rng, low: usize, high: usize) -> (drawn: usize)
    requires
        low < high,
    ensures
        low <= drawn < high,
{
    rand::Rng::gen_range(rng, low..high)
}

/// The generator that the seed `SEED` determines: whoever starts from it and
/// draws in the same order, draws the same.
pub fn thread_rng() -> (rng: Rng)
    ensures
        rng == seeded_generator(SEED),
{
    seeded(SEED)
}

/// Draws one of the three axes.
pub(crate) fn draw_axis(rng: &mut Rng) -> (axis: usize)
    ensures
        axis <= 2,
{
    let drawn: i32 = draw_inclusive(rng, 0, 2);
    drawn as usize
}

/// Draws a position before `bound`, which must not be the first.
pub(crate) fn draw_below(rng: &mut Rng, bound: usize) -> (index: usize)
    requires
        bound > 0,
    ensures
        index < bound,
{
    draw_exclusive(rng, 0, bound)
}

} // verus!
