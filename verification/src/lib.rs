//! Reconstruction and validation of 2D road reference-line geometry.
//!
//! A road's centerline ("reference line") is described as an ordered list of
//! primitive shapes: straight lines, constant-curvature arcs, clothoid
//! spirals and cubic-polynomial offsets.  This crate evaluates each primitive
//! into a parametric curve and checks that the whole sequence is consistent:
//! arc-length offsets are ordered, consecutive curves meet within tolerance,
//! and the primitive lengths add up to the declared road length.
//!
//! All quantities are held in fixed-point form: one unit is 1e-9 meter or
//! 1e-9 radian, carried in an `i64`.  This keeps every computation exact and
//! checkable; the decoding layer that owns the textual float representation
//! converts at the boundary.
//!
//! Module map: [`scalar`] holds the fixed-point types and integer
//! arithmetic; [`trig`] the fixed-point sine and cosine; [`types`] points,
//! poses and the `Segment` curve family; [`curve`] the per-primitive
//! evaluator; [`opendrive`] the data model and the plan-view and road
//! validators; [`clothoid`] the Euler-spiral parameterization; [`errors`]
//! the validation failures; and [`laws`] the proved cross-cutting
//! guarantees.

pub mod clothoid;
pub mod curve;
pub mod errors;
pub mod laws;
pub mod opendrive;
pub mod scalar;
pub mod trig;
pub mod types;
