//! The pseudo-random stream of a run: a PCG generator with 64-bit output.
//!
//! Nothing here is proved of the numbers that come out. The contracts state only
//! what holds of every draw, and the callers are verified for every draw.

use rand::distributions::{Distribution, Uniform};
use rand::{Rng, SeedableRng};
use rand_pcg::Pcg64;
use vstd::prelude::*;

verus! {

/// `rand_pcg::Lcg128Xsl64`, the generator that `rand_pcg` also names `Pcg64`.
/// Its state is opaque to the verifier.
#[verifier::external_type_specification]
#[verifier::external_body]
pub struct ExPcg64(rand_pcg::Lcg128Xsl64);

/// Calls `Pcg64::seed_from_u64`, the method of `rand_core::SeedableRng` that
/// expands a 64-bit seed into the generator's state. Nothing is claimed of the
/// generator that comes back.
#[verifier::external_body]
pub(crate) fn seeded(seed: u64) -> Pcg64 {
    Pcg64::seed_from_u64(seed)
}

/// Calls `Uniform::new(0, n).sample(rng)` of `rand::distributions`. `Uniform::new`
/// panics unless its lower bound is below its upper bound, hence `n > 0`; the
/// sample lies in the half-open range, which is all that is claimed of it.
#[verifier::external_body]
pub(crate) fn sample_below(rng: &mut Pcg64, n: usize) -> (ix: usize)
    requires
        n > 0,
    ensures
        ix < n,
{
    Uniform::new(0, n).sample(rng)
}

/// Calls `Rng::gen` for a `u64`, which takes the generator's next 64-bit output.
/// Nothing is claimed of the number.
#[verifier::external_body]
pub(crate) fn next_u64(rng: &mut Pcg64) -> u64 {
    rng.gen()
}

} // verus!
