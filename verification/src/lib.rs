//! A deterministic generative-art core: a frame clock, an iterated
//! complex-valued field model with random weights, a grid sampler that maps
//! field values to a color and a dot radius, and the four-quadrant mirrored
//! frame composition.
//!
//! All arithmetic here is exact: scalars are rational numbers with bounded
//! numerator and denominator, and every operation states precisely which
//! rational it computes and when the bounded representation suffices.
//! The drawing surface and the byte sink live outside the library.

pub mod clock;
pub mod complex;
pub mod compose;
pub mod field;
pub mod rational;
pub mod render;

use vstd::prelude::*;

verus! {

} // verus!
