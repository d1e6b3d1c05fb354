//! A generational genetic algorithm that fits a polynomial to a set of
//! (x, y) sample points by minimizing mean squared error.
//!
//! All real quantities (genes, sample coordinates, rates, fitness) are
//! carried as signed 64-bit fixed-point numbers scaled by `fx::FX_ONE`,
//! so that every arithmetic step of the engine has an exact, machine-checked
//! meaning.

pub mod crossover;
pub mod engine;
pub mod fitness;
pub mod fx;
pub mod mutation;
pub mod rng;
pub mod select;
pub mod solution;

use vstd::prelude::*;

verus! {

/// Errors reported by the engine. Configuration problems are caught once, at
/// construction; an empty point set is rejected before any fitness is computed.
#[derive(Clone, Copy, Debug, PartialEq, Eq, Structural)]
pub enum GaError {
    /// A configuration value breaks an engine invariant (population too
    /// small, elite count too large, zero generations, too many cut points,
    /// tournament without enough candidates, or an out-of-range rate/bound).
    InvalidConfiguration,
    /// Fitness evaluation was requested against zero points.
    EmptyPointSet,
}

} // verus!
