//! Saddle-point search core for the dimer method.
//!
//! The dimer method locates first-order saddle points of a potential surface
//! by estimating the direction of lowest curvature from two closely spaced
//! images (a "dimer") and walking uphill along that direction while relaxing
//! all others.  This crate holds the exact, verified core of the algorithm:
//! curvature estimation by finite differencing, the Fourier model of
//! curvature against rotation angle, the conjugate-gradient direction
//! propagator, the rotation-loop control and the translation-step force
//! transformation.  All quantities are exact rational scalars; the caller
//! supplies the handful of trigonometric values the formulas consume.

use vstd::prelude::*;

pub mod cg;
pub mod fourier;
pub mod options;
pub mod rat;
pub mod raw;
pub mod rotation;
pub mod translation;
pub mod vector;

verus! {

/// Failure conditions of the dimer core.  None of them is recovered locally:
/// each one is surfaced to the caller of the affected operation.
#[derive(Clone, Copy, Debug, PartialEq, Eq, Structural)]
pub enum DimerError {
    /// The potential evaluator failed; the search cannot continue.
    Evaluation,
    /// The Fourier fit was given a degenerate trial angle (a multiple of pi).
    InvalidTrialAngle,
    /// The rotational force has zero norm, so no rotation direction exists.
    DegenerateRotationalForce,
    /// An exact rational quantity left the representable range.
    NumericOverflow,
}

} // verus!
