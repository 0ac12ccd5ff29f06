//! Fixed-point sine and cosine.
//!
//! Angles are counts of 1e-9 radian.  The argument is reduced modulo a
//! fixed-point full turn, split into a quadrant and an octant, and finished
//! with an alternating-series polynomial evaluated in integer arithmetic.
//! The functions are exact mirrors of the spec functions [`cos_nano`] and
//! [`sin_nano`]; every caller's contract is stated over those.
//!
//! Accuracy against the real functions (a testing concern, not a verified
//! claim): the polynomial truncation error is below 2e-10 and each of the
//! handful of integer divisions rounds by at most 1e-9, so results are good
//! to a few 1e-9 for arguments within a few turns; each full turn of
//! reduction adds about 1.8e-10 of phase error from the truncated pi.

use crate::scalar::{iabs, lemma_tdiv_abs, tdiv, tdiv_i128, SCALE};
use vstd::arithmetic::div_mod::{
    lemma_div_is_ordered, lemma_div_is_ordered_by_denominator, lemma_div_pos_is_pos,
    lemma_fundamental_div_mod, lemma_mod_bound, lemma_mod_pos_bound,
};
use vstd::arithmetic::mul::{
    lemma_mul_inequality, lemma_mul_nonnegative, lemma_mul_upper_bound,
};
use vstd::prelude::*;

verus! {

/// A full turn: floor(2 * pi * 1e9).
pub const TWO_PI: i64 = 6_283_185_307;

/// A half turn: floor(pi * 1e9).
pub const PI: i64 = 3_141_592_653;

/// A quarter turn: floor(pi / 2 * 1e9).
pub const HALF_PI: i64 = 1_570_796_326;

/// An eighth of a turn: floor(pi / 4 * 1e9).
pub const QUARTER_PI: i64 = 785_398_163;

/// Largest angle magnitude the evaluator ever hands to [`sin_cos`].
pub const MAX_TRIG_ARG: i64 = 2_000_000_000_000_000;

/// A multiple of [`TWO_PI`] larger than [`MAX_TRIG_ARG`], added before the
/// modulo so the reduced argument is computed on nonnegative values.
pub const REDUCE_OFFSET: i64 = 2_010_619_298_240_000;

/// Smallest value the cosine polynomial can take on its domain; at least one
/// of the two components returned by [`sin_cos`] reaches this magnitude.
pub const C_MIN: i64 = 691_574_862;

/// The inner factor of the cosine series,
/// `1 - w^2/12 (1 - w^2/30 (1 - w^2/56 (1 - w^2/90)))`, scaled by 1e9 and
/// with every division truncated toward zero.  Beside the cosine itself it
/// gives the versine ratio `(1 - cos w) / w == w/2 * cos_inner(w) / SCALE^2`
/// that the arc evaluator integrates.
pub open spec fn cos_inner(w: int) -> int {
    let u2 = w * w;
    let f4 = SCALE - tdiv(u2 * SCALE, 90 * SCALE * SCALE);
    let f3 = SCALE - tdiv(u2 * f4, 56 * SCALE * SCALE);
    let f2 = SCALE - tdiv(u2 * f3, 30 * SCALE * SCALE);
    SCALE - tdiv(u2 * f2, 12 * SCALE * SCALE)
}

/// The cosine polynomial on `[0, QUARTER_PI]`:
/// `1 - w^2/2 * cos_inner(w)`, in fixed point.
pub open spec fn cos_poly(w: int) -> int {
    SCALE - tdiv(w * w * cos_inner(w), 2 * SCALE * SCALE)
}

/// The inner factor of the sine series,
/// `1 - w^2/6 (1 - w^2/20 (1 - w^2/42 (1 - w^2/72 (1 - w^2/110))))`, scaled
/// by 1e9.  It is also the cardinal sine `sin(w) / w` in fixed point.
pub open spec fn sin_inner(w: int) -> int {
    let u2 = w * w;
    let g4 = SCALE - tdiv(u2 * SCALE, 110 * SCALE * SCALE);
    let g3 = SCALE - tdiv(u2 * g4, 72 * SCALE * SCALE);
    let g2 = SCALE - tdiv(u2 * g3, 42 * SCALE * SCALE);
    let g1 = SCALE - tdiv(u2 * g2, 20 * SCALE * SCALE);
    SCALE - tdiv(u2 * g1, 6 * SCALE * SCALE)
}

/// The sine polynomial on `[0, QUARTER_PI]`: `w * sin_inner(w)`, in fixed
/// point.
pub open spec fn sin_poly(w: int) -> int {
    tdiv(w * sin_inner(w), SCALE as int)
}

/// The argument reduced to `[0, TWO_PI)`.
pub open spec fn reduce_nano(x: int) -> int {
    (x + REDUCE_OFFSET) % (TWO_PI as int)
}

/// Which quarter turn the reduced argument falls in (0 to 3); the last few
/// units of the turn, lost to the truncation of `TWO_PI / 4`, count as 3.
pub open spec fn quadrant_of(r: int) -> int {
    if r / (HALF_PI as int) > 3 {
        3
    } else {
        r / (HALF_PI as int)
    }
}

/// The offset of the reduced argument into its quadrant.
pub open spec fn frac_of(r: int) -> int {
    r - quadrant_of(r) * (HALF_PI as int)
}

/// Negative values clipped to zero.
pub open spec fn clamp0(v: int) -> int {
    if v < 0 {
        0
    } else {
        v
    }
}

/// Cosine of an offset within the first quadrant, by octant folding.
pub open spec fn base_cos(u: int) -> int {
    if u <= QUARTER_PI {
        cos_poly(u)
    } else {
        sin_poly(clamp0(HALF_PI - u))
    }
}

/// Sine of an offset within the first quadrant, by octant folding.
pub open spec fn base_sin(u: int) -> int {
    if u <= QUARTER_PI {
        sin_poly(u)
    } else {
        cos_poly(clamp0(HALF_PI - u))
    }
}

/// Fixed-point cosine, scaled by 1e9.
pub open spec fn cos_nano(x: int) -> int {
    let r = reduce_nano(x);
    let q = quadrant_of(r);
    let u = frac_of(r);
    if q == 0 {
        base_cos(u)
    } else if q == 1 {
        -base_sin(u)
    } else if q == 2 {
        -base_cos(u)
    } else {
        base_sin(u)
    }
}

/// Fixed-point sine, scaled by 1e9.
pub open spec fn sin_nano(x: int) -> int {
    let r = reduce_nano(x);
    let q = quadrant_of(r);
    let u = frac_of(r);
    if q == 0 {
        base_sin(u)
    } else if q == 1 {
        base_cos(u)
    } else if q == 2 {
        -base_sin(u)
    } else {
        -base_cos(u)
    }
}

/// One nesting step shared by both polynomials: each factor stays within
/// `[SCALE - 308_425_138, SCALE]`, so the series never leaves `[0, SCALE]`.
fn factor_step(u2: i128, f: i128, d: i128) -> (r: i128)
    requires
        0 <= u2 <= (QUARTER_PI as i128) * (QUARTER_PI as i128),
        0 <= f <= SCALE as i128,
        2 <= d <= 200,
    ensures
        r == SCALE - tdiv(u2 as int * (f as int), d as int * SCALE * SCALE),
        SCALE - 308_425_138 <= r <= SCALE as i128,
{
    proof {
        lemma_mul_nonnegative(u2 as int, f as int);
        lemma_mul_upper_bound(u2 as int, (QUARTER_PI as int) * (QUARTER_PI as int), f as int,
            SCALE as int);
    }
    let prod: i128 = u2 * f;
    let den: i128 = d * (SCALE as i128) * (SCALE as i128);
    proof {
        lemma_mul_inequality(2, d as int, (SCALE as int) * (SCALE as int));
        assert(den == d as int * SCALE * SCALE);
    }
    let t: i128 = tdiv_i128(prod, den);
    proof {
        lemma_div_pos_is_pos(prod as int, den as int);
        lemma_div_is_ordered_by_denominator(prod as int, 2 * (SCALE as int) * (SCALE as int),
            den as int);
        lemma_div_is_ordered(prod as int,
            (QUARTER_PI as int) * (QUARTER_PI as int) * (SCALE as int),
            2 * (SCALE as int) * (SCALE as int));
        lemma_tdiv_abs(prod as int, den as int);
    }
    SCALE as i128 - t
}

/// Every inner cosine factor lies in `[SCALE - 308_425_138, SCALE]`.
pub proof fn lemma_cos_inner_bounds(w: int)
    requires
        0 <= w <= QUARTER_PI,
    ensures
        SCALE - 308_425_138 <= cos_inner(w) <= SCALE,
{
    let u2 = w * w;
    lemma_mul_nonnegative(w, w);
    lemma_mul_upper_bound(w, QUARTER_PI as int, w, QUARTER_PI as int);
    lemma_poly_factor(u2, SCALE as int, 90);
    let f4 = SCALE - tdiv(u2 * SCALE, 90 * SCALE * SCALE);
    lemma_poly_factor(u2, f4, 56);
    let f3 = SCALE - tdiv(u2 * f4, 56 * SCALE * SCALE);
    lemma_poly_factor(u2, f3, 30);
    let f2 = SCALE - tdiv(u2 * f3, 30 * SCALE * SCALE);
    lemma_poly_factor(u2, f2, 12);
}

/// Every cosine-polynomial value lies in `[C_MIN, SCALE]`.
pub proof fn lemma_cos_poly_bounds(w: int)
    requires
        0 <= w <= QUARTER_PI,
    ensures
        C_MIN <= cos_poly(w) <= SCALE,
{
    let u2 = w * w;
    lemma_mul_nonnegative(w, w);
    lemma_mul_upper_bound(w, QUARTER_PI as int, w, QUARTER_PI as int);
    lemma_cos_inner_bounds(w);
    lemma_poly_factor(u2, cos_inner(w), 2);
}

/// Every inner sine factor lies in `[SCALE - 308_425_138, SCALE]`.
pub proof fn lemma_sin_inner_bounds(w: int)
    requires
        0 <= w <= QUARTER_PI,
    ensures
        SCALE - 308_425_138 <= sin_inner(w) <= SCALE,
{
    let u2 = w * w;
    lemma_mul_nonnegative(w, w);
    lemma_mul_upper_bound(w, QUARTER_PI as int, w, QUARTER_PI as int);
    lemma_poly_factor(u2, SCALE as int, 110);
    let g4 = SCALE - tdiv(u2 * SCALE, 110 * SCALE * SCALE);
    lemma_poly_factor(u2, g4, 72);
    let g3 = SCALE - tdiv(u2 * g4, 72 * SCALE * SCALE);
    lemma_poly_factor(u2, g3, 42);
    let g2 = SCALE - tdiv(u2 * g3, 42 * SCALE * SCALE);
    lemma_poly_factor(u2, g2, 20);
    let g1 = SCALE - tdiv(u2 * g2, 20 * SCALE * SCALE);
    lemma_poly_factor(u2, g1, 6);
}

/// Every sine-polynomial value lies in `[0, w]`.
pub proof fn lemma_sin_poly_bounds(w: int)
    requires
        0 <= w <= QUARTER_PI,
    ensures
        0 <= sin_poly(w) <= w,
{
    lemma_sin_inner_bounds(w);
    let g0 = sin_inner(w);
    lemma_mul_nonnegative(w, g0);
    lemma_mul_upper_bound(w, w, g0, SCALE as int);
    lemma_div_pos_is_pos(w * g0, SCALE as int);
    lemma_div_is_ordered(w * g0, w * SCALE, SCALE as int);
    assert(w * SCALE / (SCALE as int) == w) by (nonlinear_arith)
        requires
            SCALE == 1_000_000_000,
    ;
}

/// The ghost counterpart of [`factor_step`].
proof fn lemma_poly_factor(u2: int, f: int, d: int)
    requires
        0 <= u2 <= (QUARTER_PI as int) * (QUARTER_PI as int),
        0 <= f <= SCALE,
        2 <= d <= 200,
    ensures
        SCALE - 308_425_138 <= SCALE - tdiv(u2 * f, d * SCALE * SCALE) <= SCALE,
{
    lemma_mul_nonnegative(u2, f);
    lemma_mul_upper_bound(u2, (QUARTER_PI as int) * (QUARTER_PI as int), f, SCALE as int);
    lemma_mul_inequality(2, d, (SCALE as int) * (SCALE as int));
    lemma_div_pos_is_pos(u2 * f, d * SCALE * SCALE);
    lemma_div_is_ordered_by_denominator(u2 * f, 2 * (SCALE as int) * (SCALE as int),
        d * SCALE * SCALE);
    lemma_div_is_ordered(u2 * f, (QUARTER_PI as int) * (QUARTER_PI as int) * (SCALE as int),
        2 * (SCALE as int) * (SCALE as int));
}

/// The inner cosine factor, executable.
pub(crate) fn cos_inner_exec(w: i64) -> (c: i64)
    requires
        0 <= w <= QUARTER_PI,
    ensures
        c == cos_inner(w as int),
        SCALE - 308_425_138 <= c <= SCALE,
{
    proof {
        lemma_mul_nonnegative(w as int, w as int);
        lemma_mul_upper_bound(w as int, QUARTER_PI as int, w as int, QUARTER_PI as int);
    }
    let u2: i128 = (w as i128) * (w as i128);
    let f4: i128 = factor_step(u2, SCALE as i128, 90);
    let f3: i128 = factor_step(u2, f4, 56);
    let f2: i128 = factor_step(u2, f3, 30);
    let f1: i128 = factor_step(u2, f2, 12);
    f1 as i64
}

/// The cosine polynomial, executable.
fn cos_poly_exec(w: i64) -> (c: i64)
    requires
        0 <= w <= QUARTER_PI,
    ensures
        c == cos_poly(w as int),
        C_MIN <= c <= SCALE,
{
    proof {
        lemma_mul_nonnegative(w as int, w as int);
        lemma_mul_upper_bound(w as int, QUARTER_PI as int, w as int, QUARTER_PI as int);
        lemma_cos_poly_bounds(w as int);
    }
    let u2: i128 = (w as i128) * (w as i128);
    let f1: i64 = cos_inner_exec(w);
    let c: i128 = factor_step(u2, f1 as i128, 2);
    c as i64
}

/// The inner sine factor (the cardinal sine), executable.
pub(crate) fn sin_inner_exec(w: i64) -> (s: i64)
    requires
        0 <= w <= QUARTER_PI,
    ensures
        s == sin_inner(w as int),
        SCALE - 308_425_138 <= s <= SCALE,
{
    proof {
        lemma_mul_nonnegative(w as int, w as int);
        lemma_mul_upper_bound(w as int, QUARTER_PI as int, w as int, QUARTER_PI as int);
    }
    let u2: i128 = (w as i128) * (w as i128);
    let g4: i128 = factor_step(u2, SCALE as i128, 110);
    let g3: i128 = factor_step(u2, g4, 72);
    let g2: i128 = factor_step(u2, g3, 42);
    let g1: i128 = factor_step(u2, g2, 20);
    let g0: i128 = factor_step(u2, g1, 6);
    g0 as i64
}

/// The sine polynomial, executable.
fn sin_poly_exec(w: i64) -> (s: i64)
    requires
        0 <= w <= QUARTER_PI,
    ensures
        s == sin_poly(w as int),
        0 <= s <= w,
{
    proof {
        lemma_sin_poly_bounds(w as int);
    }
    let g0: i64 = sin_inner_exec(w);
    proof {
        lemma_mul_nonnegative(w as int, g0 as int);
        lemma_mul_upper_bound(w as int, QUARTER_PI as int, g0 as int, SCALE as int);
    }
    let prod: i128 = (w as i128) * (g0 as i128);
    let s: i128 = tdiv_i128(prod, SCALE as i128);
    s as i64
}

/// Fixed-point cosine and sine of an angle in 1e-9 radian units.
///
/// Returns `(cos, sin)`, both scaled by 1e9.  The pair is never close to
/// the origin: one component always has magnitude at least [`C_MIN`].
pub fn sin_cos(x: i64) -> (cs: (i64, i64))
    requires
        -MAX_TRIG_ARG <= x <= MAX_TRIG_ARG,
    ensures
        cs.0 == cos_nano(x as int),
        cs.1 == sin_nano(x as int),
        -SCALE <= cs.0 <= SCALE,
        -SCALE <= cs.1 <= SCALE,
        iabs(cs.0 as int) >= C_MIN || iabs(cs.1 as int) >= C_MIN,
{
    let y: i64 = x + REDUCE_OFFSET;
    let yu: u64 = y as u64;
    let r64: u64 = yu % (TWO_PI as u64);
    proof {
        lemma_mod_pos_bound(yu as int, TWO_PI as int);
        assert(r64 == reduce_nano(x as int));
    }
    let qu: u64 = r64 / (HALF_PI as u64);
    proof {
        lemma_div_pos_is_pos(r64 as int, HALF_PI as int);
        lemma_div_is_ordered(r64 as int, (TWO_PI - 1) as int, HALF_PI as int);
        lemma_fundamental_div_mod(r64 as int, HALF_PI as int);
        lemma_mod_pos_bound(r64 as int, HALF_PI as int);
    }
    let q: u64 = if qu >= 4 {
        3
    } else {
        qu
    };
    proof {
        lemma_mul_inequality(q as int, qu as int, HALF_PI as int);
        assert(q == quadrant_of(r64 as int));
    }
    let u: i64 = (r64 - q * (HALF_PI as u64)) as i64;
    proof {
        assert(u == frac_of(r64 as int));
        assert(0 <= u <= HALF_PI + 2);
    }
    let cb: i64;
    let sb: i64;
    if u <= QUARTER_PI {
        cb = cos_poly_exec(u);
        sb = sin_poly_exec(u);
    } else {
        let v0: i64 = HALF_PI - u;
        let v: i64 = if v0 < 0 {
            0
        } else {
            v0
        };
        cb = sin_poly_exec(v);
        sb = cos_poly_exec(v);
    }
    proof {
        assert(cb == base_cos(frac_of(reduce_nano(x as int))));
        assert(sb == base_sin(frac_of(reduce_nano(x as int))));
    }
    if q == 0 {
        (cb, sb)
    } else if q == 1 {
        (-sb, cb)
    } else if q == 2 {
        (-cb, -sb)
    } else {
        (sb, -cb)
    }
}

/// The direction vector of any angle is bounded away from the origin.
pub proof fn lemma_dir_nonzero(x: int)
    ensures
        iabs(cos_nano(x)) >= C_MIN || iabs(sin_nano(x)) >= C_MIN,
{
    let r = reduce_nano(x);
    lemma_mod_bound(x + REDUCE_OFFSET, TWO_PI as int);
    lemma_div_pos_is_pos(r, HALF_PI as int);
    lemma_div_is_ordered(r, (TWO_PI - 1) as int, HALF_PI as int);
    lemma_fundamental_div_mod(r, HALF_PI as int);
    lemma_mod_pos_bound(r, HALF_PI as int);
    let q = quadrant_of(r);
    lemma_mul_inequality(q, r / (HALF_PI as int), HALF_PI as int);
    let u = frac_of(r);
    assert(0 <= u <= HALF_PI + 2);
    if u <= QUARTER_PI {
        lemma_cos_poly_bounds(u);
    } else {
        lemma_cos_poly_bounds(clamp0(HALF_PI - u));
    }
}

} // verus!
