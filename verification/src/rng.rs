//! Randomness capability: a seedable generator with uniform integer
//! sampling, the only two services the engine asks of its random source.
//!
//! The generator's state is opaque; nothing is assumed about any draw beyond
//! the range it falls in, so every caller is verified for every possible
//! outcome of every draw.

use vstd::prelude::*;

verus! {

/// rand's standard seedable generator, declared so that values of it can
/// flow through verified code. Its state stays opaque.
#[verifier::external_type_specification]
#[verifier::external_body]
pub struct ExStdRng(rand::rngs::StdRng);

/// Relies on rand's `Rng::gen_range` over an inclusive `i64` range: the
/// sample is uniform over the range and always inside it; the call panics
/// only on an empty range, which the precondition rules out. Used for gene
/// values and for probability draws in fixed-point scale.
#[verifier::external_body]
pub(crate) fn rand_between(rng: &mut rand::rngs::StdRng, lo: i64, hi: i64) -> (r: i64)
    requires
        lo <= hi,
    ensures
        lo <= r <= hi,
{
    rand::Rng::gen_range(rng, lo..=hi)
}

/// Relies on rand's `Rng::gen_range` over a half-open `usize` range: the
/// sample is uniform over `[0, n)` and always below `n`; the call panics
/// only on an empty range, which the precondition rules out. Used for
/// population indices and crossover cut points.
#[verifier::external_body]
pub(crate) fn rand_index(rng: &mut rand::rngs::StdRng, n: usize) -> (r: usize)
    requires
        n >= 1,
    ensures
        r < n,
{
    rand::Rng::gen_range(rng, 0..n)
}

} // verus!
