//! Non-uniform mutation: each gene, independently and with probability
//! `mutation_rate`, moves toward one of the two bounds (chosen with equal
//! probability) by a fraction of its distance to that bound. The fraction
//! shrinks as the run approaches its final generation, so early generations
//! explore coarsely and late ones fine-tune.

use vstd::prelude::*;
use crate::fx::{fx_clamp, fx_mul, fx_sub, lemma_scale_within, FX_ONE};
use crate::rng::rand_between;
use crate::solution::genes_within;

verus! {

/// Half of one, in fixed point: the threshold for the direction draw.
pub const FX_HALF: i64 = 2147483648;

/// The generation-dependent shrink factor of non-uniform mutation.
///
/// Given a uniform fixed-point draw `r` from `[0, FX_ONE)`, the current
/// generation `g`, the total generation count `max_g` and the fixed-point
/// dependency factor `b`, an implementation is expected to return the fixed
/// point encoding of `r ^ ((1 - g / max_g) ^ b)`: a power with a real
/// exponent, which no fixed-point operation of this crate expresses.
/// Nothing is assumed about the returned value; the mutation operator clamps
/// it into `[0, FX_ONE]`, and its gene-bound guarantee holds for every
/// implementation of this trait.
pub trait ShrinkRule {
    fn shrink(&mut self, r: i64, g: u64, max_g: u64, b: i64) -> i64;
}

/// Mutate a chromosome for generation `g`. Each gene is left unchanged with
/// probability `1 - mutation_rate`; otherwise it moves toward the lower or
/// the upper bound (equal chance) by `y * (1 - rho)`, where `y` is its
/// distance to the chosen bound and `rho` is the (clamped) shrink factor.
/// Every resulting gene stays within `[lb, ub]`; a zero mutation rate leaves
/// the chromosome untouched.
pub fn mutate<S: ShrinkRule>(
    c: &Vec<i64>,
    g: u64,
    max_g: u64,
    lb: i64,
    ub: i64,
    mutation_rate: i64,
    dependency_factor: i64,
    rng: &mut rand::rngs::StdRng,
    rule: &mut S,
) -> (r: Vec<i64>)
    requires
        lb <= ub,
        genes_within(c@, lb, ub),
        0 <= mutation_rate <= FX_ONE,
    ensures
        r@.len() == c@.len(),
        genes_within(r@, lb, ub),
        forall|j: int| 0 <= j < c@.len() ==> ((lb <= #[trigger] r@[j] <= c@[j]) || (c@[j] <= r@[j]
            <= ub)),
        mutation_rate == 0 ==> r@ == c@,
{
    let mut out: Vec<i64> = Vec::new();
    let mut j: usize = 0;
    while j < c.len()
        invariant
            j <= c@.len(),
            out@.len() == j,
            lb <= ub,
            genes_within(c@, lb, ub),
            0 <= mutation_rate <= FX_ONE,
            genes_within(out@, lb, ub),
            forall|t: int| 0 <= t < j ==> ((lb <= #[trigger] out@[t] <= c@[t]) || (c@[t] <= out@[t]
                <= ub)),
            mutation_rate == 0 ==> out@ =~= c@.subrange(0, j as int),
        decreases c@.len() - j,
    {
        let gene = c[j];
        let p = rand_between(rng, 0, FX_ONE - 1);
        if p < mutation_rate {
            let d = rand_between(rng, 0, FX_ONE - 1);
            let toward_lower = d < FX_HALF;
            let y = if toward_lower {
                fx_sub(gene, lb)
            } else {
                fx_sub(ub, gene)
            };
            let r_draw = rand_between(rng, 0, FX_ONE - 1);
            let rho = fx_clamp(rule.shrink(r_draw, g, max_g, dependency_factor), 0, FX_ONE);
            let delta = fx_mul(y, FX_ONE - rho);
            proof {
                lemma_scale_within(y as int, FX_ONE - rho as int);
            }
            let moved = if toward_lower {
                gene - delta
            } else {
                gene + delta
            };
            out.push(moved);
        } else {
            out.push(gene);
        }
        j += 1;
    }
    proof {
        if mutation_rate == 0 {
            assert(out@ =~= c@);
        }
    }
    out
}

} // verus!
