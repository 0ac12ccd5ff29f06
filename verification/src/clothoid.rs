//! The clothoid in its standard Euler-spiral parameterization.
//!
//! A clothoid whose curvature runs linearly from `k0` to `k1` over an arc
//! length `L` is a stretch of the unit Euler spiral, scaled by
//! `a = sqrt(L / |k1 - k0|)` and cut between the arguments `k0 * a` and
//! `k1 * a`.  Sampling it through the standard Fresnel integrals is the
//! closed-form alternative to the quadrature the curve evaluator uses.

use crate::scalar::{
    iabs, isqrt_u128, lemma_mul_abs_bound, tdiv, tdiv_i128, Angle, Curvature, Length, MAX_CURV,
    MAX_LEN, SCALE,
};
use crate::types::Point2;
use vstd::arithmetic::div_mod::{lemma_div_is_ordered_by_denominator, lemma_div_pos_is_pos};
use vstd::arithmetic::mul::lemma_mul_nonnegative;
use vstd::prelude::*;

verus! {

/// A clothoid segment: the scale of its underlying unit Euler spiral and
/// the spiral arguments of its two ends, all in 1e-9 units.
#[derive(Clone, Copy, Debug, PartialEq, Eq, Structural, Hash)]
pub struct Clothoid {
    /// The spiral scale `sqrt(length / |curvature change|)`, in 1e-9 meter.
    pub scale: i64,
    /// The spiral argument at the start: start curvature times the scale.
    pub arg_start: i64,
    /// The spiral argument at the end: end curvature times the scale.
    pub arg_end: i64,
}

impl Clothoid {
    /// Build the clothoid of one spiral geometry record: curvature runs
    /// from `start_curv` to `end_curv` over `length`.  The start point and
    /// rotation place the spiral in the plane and do not enter the three
    /// shape parameters.  The scale is the square root of
    /// `length / |end_curv - start_curv|`, rounded down to 1e-9 meter; the
    /// arguments are the two curvatures times that scale.
    pub fn from_opendrive(
        from: Point2,
        start_curv: Curvature,
        end_curv: Curvature,
        length: Length,
        rot: Angle,
    ) -> (r: Clothoid)
        requires
            -MAX_CURV <= start_curv.nanos <= MAX_CURV,
            -MAX_CURV <= end_curv.nanos <= MAX_CURV,
            start_curv.nanos != end_curv.nanos,
            0 <= length.nanos <= MAX_LEN,
        ensures
            0 <= r.scale <= 10_000_000_000_000_000,
            r.scale * r.scale <= tdiv(SCALE * SCALE * length.nanos, iabs(
                end_curv.nanos - start_curv.nanos,
            )),
            tdiv(SCALE * SCALE * length.nanos, iabs(end_curv.nanos - start_curv.nanos)) < (
            r.scale + 1) * (r.scale + 1),
            r.arg_start == tdiv(start_curv.nanos * r.scale, SCALE as int),
            r.arg_end == tdiv(end_curv.nanos * r.scale, SCALE as int),
    {
        let dk: i64 = if end_curv.nanos >= start_curv.nanos {
            end_curv.nanos - start_curv.nanos
        } else {
            start_curv.nanos - end_curv.nanos
        };
        let num: u128 = (SCALE as u128) * (SCALE as u128) * (length.nanos as u128);
        let ratio: u128 = num / (dk as u128);
        proof {
            lemma_mul_nonnegative((SCALE * SCALE) as int, length.nanos as int);
            lemma_div_pos_is_pos(num as int, dk as int);
            lemma_div_is_ordered_by_denominator(num as int, 1, dk as int);
            assert(num as int / (dk as int) == tdiv(SCALE * SCALE * length.nanos, iabs(
                end_curv.nanos - start_curv.nanos,
            )));
        }
        let scale: u128 = isqrt_u128(ratio);
        proof {
            assert(scale <= 10_000_000_000_000_000u128) by (nonlinear_arith)
                requires
                    scale as int * (scale as int) <= 100_000_000_000_000_000_000_000_000_000_000int,
            ;
        }
        let scale64: i64 = scale as i64;
        proof {
            lemma_mul_abs_bound(start_curv.nanos as int, scale64 as int, MAX_CURV as int,
                10_000_000_000_000_000int);
            lemma_mul_abs_bound(end_curv.nanos as int, scale64 as int, MAX_CURV as int,
                10_000_000_000_000_000int);
            crate::scalar::lemma_tdiv_bound(start_curv.nanos as int * scale64,
                SCALE as int, 40_000_000_000_000_000_000_000_000int);
            crate::scalar::lemma_tdiv_bound(end_curv.nanos as int * scale64, SCALE as int,
                40_000_000_000_000_000_000_000_000int);
        }
        let arg_start: i64 = tdiv_i128((start_curv.nanos as i128) * (scale64 as i128),
            SCALE as i128) as i64;
        let arg_end: i64 = tdiv_i128((end_curv.nanos as i128) * (scale64 as i128),
            SCALE as i128) as i64;
        Clothoid { scale: scale64, arg_start, arg_end }
    }
}

} // verus!
