//! The shared random generator, threaded explicitly through every
//! population call and genetic operator.

use vstd::prelude::*;
use rand::Rng;

verus! {

#[verifier::external_type_specification]
#[verifier::external_body]
pub struct ExThreadRng(rand::rngs::ThreadRng);

/// Relies on rand::thread_rng: a fresh handle to the thread-local
/// generator. Nothing is promised of the values it will yield.
#[verifier::external_body]
pub fn fresh_rng() -> rand::rngs::ThreadRng {
    rand::thread_rng()
}

/// Relies on rand::Rng::gen::<u64>: one uniform draw from the generator.
/// Nothing is promised of the value.
#[verifier::external_body]
pub fn rng_next(rng: &mut rand::rngs::ThreadRng) -> u64 {
    rng.gen::<u64>()
}

/// A random index below `n`.
pub fn rand_index(rng: &mut rand::rngs::ThreadRng, n: usize) -> (r: usize)
    requires
        n >= 1,
    ensures
        r < n,
{
    (rng_next(rng) % (n as u64)) as usize
}

/// A random fixed-point value in `[0, bound)`.
pub fn rand_below_fx(rng: &mut rand::rngs::ThreadRng, bound: i64) -> (r: i64)
    requires
        bound >= 1,
    ensures
        0 <= r < bound,
{
    (rng_next(rng) % (bound as u64)) as i64
}

/// A random value below a wide bound.
pub fn rand_below_wide(rng: &mut rand::rngs::ThreadRng, bound: u128) -> (r: u128)
    requires
        bound >= 1,
    ensures
        r < bound,
{
    (rng_next(rng) as u128) % bound
}

} // verus!
