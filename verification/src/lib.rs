//! Evolutionary optimization of feed-forward neural networks.
//!
//! A genetic algorithm (fitness-proportionate selection, uniform crossover,
//! per-gene additive mutation) evolves populations of individuals whose
//! evolvable state is a flat chromosome of fixed-point scalars, paired with
//! a feed-forward network that is built from, and encoded back into, such a
//! flat gene sequence.
//!
//! All scalar quantities (genes, biases, weights, network inputs and
//! outputs) are fixed-point numbers: an `i32` counting units of
//! 1/1_000_000, so the value `1.15` is stored as `1_150_000`. Fitness
//! scores are non-negative fixed-point numbers stored as `u32`.

use vstd::prelude::*;

pub mod algorithm;
pub mod chromosome;
pub mod crossover;
pub mod individual;
pub mod mutation;
pub mod network;
pub mod random;
pub mod selection;

verus! {

/// Scale of the fixed-point representation: one whole unit, in raw ticks.
pub const SCALE: i32 = 1_000_000;

/// The failure kinds of the library. All of them are precondition
/// violations surfaced to the caller; none is a transient fault.
#[derive(Clone, Copy, Debug, PartialEq, Eq, Structural)]
pub enum Error {
    /// A population-consuming operation was handed zero individuals.
    EmptyPopulation,
    /// Weighted selection was asked to draw from a population whose total
    /// fitness is zero (or which is empty): no proportionate draw exists.
    EmptyOrDegeneratePopulation,
    /// Two chromosomes of different lengths were crossed over, or a gene
    /// sequence too short for the requested topology was decoded.
    ChromosomeLengthMismatch,
    /// Fewer than two layer sizes were supplied to network construction.
    InvalidTopology,
    /// Propagation was called with an input vector of the wrong length.
    InputSizeMismatch,
    /// A chromosome was indexed outside `[0, length)`.
    IndexOutOfRange,
}

} // verus!
