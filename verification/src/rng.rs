//! The pseudorandom source. The tracer draws all of its randomness through
//! `rand`'s `StdRng`, which callers seed; the library states nothing about
//! the values drawn, only the ranges into which it maps them.

use vstd::prelude::*;

verus! {

/// Declares rand's `StdRng` so it can stand in signatures; the generator's
/// state is opaque to the library.
#[verifier::external_type_specification]
#[verifier::external_body]
pub struct ExStdRng(rand::rngs::StdRng);

/// Relies on rand's `StdRng` through `rand_core::Rng::next_u64`: hands back
/// the generator's next 64-bit word. Nothing is promised of the value.
#[verifier::external_body]
fn rng_next(rng: &mut rand::rngs::StdRng) -> u64 {
    rand::Rng::next_u64(rng)
}

/// A draw in `[min, max)`, taken from one 64-bit word of the generator.
pub fn rand_between(rng: &mut rand::rngs::StdRng, min: i64, max: i64) -> (r: i64)
    requires
        min < max,
    ensures
        min <= r < max,
{
    let span = ((max as i128) - (min as i128)) as u128;
    let x = (rng_next(rng) as u128) % span;
    ((min as i128) + (x as i128)) as i64
}

} // verus!
