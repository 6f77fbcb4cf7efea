//! Euler-spiral approximation of cubic Bézier curves.
//!
//! The crate fits a cubic Bézier with a sequence of Euler-spiral segments
//! within a caller-supplied error tolerance, converts such segments into
//! circular arcs, and flattens the parallel (offset) curve into a polyline
//! whose vertices are spaced to equalize the flattening error.
//!
//! All quantities are fixed-point numbers: `i128` values carrying 48
//! fractional bits (see [`fixed`]).  Arithmetic saturates at a large bound
//! and truncates toward zero, so every operation is total and its result is
//! pinned down exactly by the contracts.

pub mod arc;
pub mod euler;
pub mod fit;
pub mod flatten;
pub mod fixed;
pub mod geom;
pub mod trig;

use vstd::prelude::*;

verus! {

/// Errors reported by the fitting and flattening computations.
#[derive(Clone, Copy, PartialEq, Eq, Structural, Debug)]
pub enum FitError {
    /// A non-positive tolerance, or a degenerate (near-zero-length) chord
    /// that leaves the local frame undefined.
    InvalidArgument,
    /// An arc whose defining triple cannot be realized as a circular arc.
    GeometricInconsistency,
}

} // verus!
