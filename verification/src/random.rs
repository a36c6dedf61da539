//! The injected uniform-random capability: an explicitly passed, seeded
//! source of fixed-point samples.
//!
//! The generator itself comes from the `rand` crate and stays behind trusted
//! wrappers; everything built on top of it is verified against the one fact
//! the wrappers state, that a draw lands in the requested half-open range.

use crate::fixed::{fp_add, fp_mul, fp_sub, mul_fp, sub_fp, SCALE};
use vstd::prelude::*;

verus! {

#[verifier::external_type_specification]
#[verifier::external_body]
pub struct ExStdRng(rand::rngs::StdRng);

/// An owned, seeded random source. Scattering, lens sampling and pixel
/// jitter all draw from one of these; passing it explicitly keeps renders
/// reproducible and leaves no global state.
pub struct RandomSource {
    rng: rand::rngs::StdRng,
}

impl RandomSource {
    /// Relies on `rand::SeedableRng::seed_from_u64` for `StdRng`: builds a
    /// generator from the seed. Nothing is promised of the stream it yields.
    #[verifier::external_body]
    pub fn new(seed: u64) -> RandomSource {
        RandomSource { rng: <rand::rngs::StdRng as rand::SeedableRng>::seed_from_u64(seed) }
    }

    /// Relies on `rand::Rng::gen_range`: a sample uniform in `[min, max)`.
    /// It panics only on an empty range, which the precondition rules out.
    #[verifier::external_body]
    pub fn draw(&mut self, min: i64, max: i64) -> (r: i64)
        requires
            min < max,
        ensures
            min <= r < max,
    {
        rand::Rng::gen_range(&mut self.rng, min..max)
    }
}

/// A uniform fixed-point sample in `[0, 1)`.
pub fn random(rng: &mut RandomSource) -> (r: i64)
    ensures
        0 <= r < SCALE,
{
    rng.draw(0, SCALE)
}

/// A uniform fixed-point sample in `[min, max)`.
pub fn random_range(rng: &mut RandomSource, min: i64, max: i64) -> (r: i64)
    requires
        min < max,
    ensures
        min <= r < max,
{
    rng.draw(min, max)
}

/// `min + (max - min) * u` for a fresh unit sample `u`: the affine map of a
/// uniform draw into `[min, max)`.
pub fn random_double(rng: &mut RandomSource, min: i64, max: i64) -> (r: i64)
    requires
        0 <= min <= max,
    ensures
        min <= r <= max,
        min < max ==> r < max,
        exists|u: int|
            0 <= u < SCALE && r == fp_add(min as int, fp_mul(fp_sub(max as int, min as int), u)),
{
    let u = random(rng);
    let span = sub_fp(max, min);
    let offset = mul_fp(span, u);
    proof {
        crate::fixed::lemma_fp_mul_range(span as int, u as int);
    }
    let r = crate::fixed::add_fp(min, offset);
    proof {
        assert(0 <= u < SCALE && r == fp_add(
            min as int,
            fp_mul(fp_sub(max as int, min as int), u as int),
        ));
    }
    r
}

} // verus!
