//! Procedural grayscale textures by iterative random blending.
//!
//! A square grid of random byte intensities is diffused round by round:
//! each round replaces every cell with the truncated average of its own
//! prior value and the prior value of one randomly chosen in-bounds
//! neighbor, the neighbor being drawn from a weighted 3x3 relative
//! neighborhood with rejection of out-of-bounds picks.
//!
//! The modules, from the bottom up:
//! - [`rng`]: the random source, a thin trusted layer over the `rand` crate;
//! - [`sampler`]: the weighted neighbor sampler (weighted index draw, index
//!   to offset translation, bounded offset resolution);
//! - [`engine`]: noise grid generation and the double-buffered diffusion
//!   rounds;
//! - [`adapter`]: validation of externally supplied parameters before any
//!   algorithmic work begins.

use vstd::prelude::*;

pub mod adapter;
pub mod engine;
pub mod rng;
pub mod sampler;

verus! {

/// Why a blending request was refused.
#[derive(Clone, Copy, Debug, PartialEq, Eq, Structural)]
pub enum BlendError {
    /// Every weight in the probability table is zero, so a weighted draw
    /// is undefined.
    DegenerateProbabilityTable,
    /// The probability table or the output path was not supplied.
    AbsentReference,
    /// The requested grid side length is not strictly positive.
    NonPositiveSize,
    /// The requested number of rounds is not strictly positive.
    NonPositiveIterations,
    /// The supplied probability data does not hold exactly nine weights.
    WrongProbabilityLength,
}

impl BlendError {
    /// The status a foreign caller receives for this failure: always a
    /// negative value, never zero (which signals success).
    pub fn status(&self) -> (s: i32)
        ensures
            s < 0,
    {
        -1
    }
}

} // verus!
