//! The curve evaluator: from one geometry record to a parametric curve.
//!
//! For a primitive of length `L`, the evaluator gives position, heading and
//! curvature as functions of the local arc length `t` in `[0, L]`.
//!
//! Degenerate records are redirected before any formula runs: an arc of
//! zero curvature is evaluated as a line, a spiral of constant curvature as
//! an arc (of zero curvature: as a line), and a spiral of zero length as an
//! arc of its start curvature.  This keeps every later division away from
//! zero and makes the equivalences exact, not approximate.
//!
//! The clothoid (general spiral) position has no closed form; it is
//! evaluated by composite Simpson quadrature over the tangent direction,
//! doubling the sample count from 8 until two successive estimates agree
//! within [`QUAD_TOL`] of 1e-9 meter, capped at [`QUAD_MAX`] intervals to
//! guarantee termination.  Reaching the cap without agreement is reported
//! as a caveat on the curve, not an error.  With the fixed-point
//! trigonometry accurate to a few 1e-9, the evaluation error of a
//! converged spiral stays well below the 1e-6 continuity tolerance for
//! elements up to a few hundred meters.

use crate::opendrive::{poly3_span, wf_geometry, Geometry, GeometryElement};
use crate::scalar::{
    iabs, lemma_mul_abs_bound, lemma_tdiv_abs, lemma_tdiv_bound, tdiv, tdiv_i128, Angle,
    Curvature, Length, MAX_COORD, MAX_CURV, MAX_LEN, MAX_POLY, MAX_SPAN, SCALE,
};
use crate::trig::{cos_inner, cos_nano, sin_cos, sin_inner, sin_nano, MAX_TRIG_ARG};
use crate::types::{rot_x, rot_y, Point2, Pose, Rotation};
use vstd::arithmetic::div_mod::{
    lemma_div_is_ordered, lemma_div_is_ordered_by_denominator, lemma_div_multiples_vanish,
    lemma_div_pos_is_pos, lemma_fundamental_div_mod, lemma_mod_pos_bound,
};
use vstd::arithmetic::mul::{lemma_mul_inequality, lemma_mul_nonnegative, lemma_mul_upper_bound};
use vstd::prelude::*;

verus! {

/// Quadrature convergence tolerance: 1e-7 meter.
pub const QUAD_TOL: i64 = 100;

/// First Simpson interval count tried for a spiral.
pub const QUAD_MIN: u64 = 8;

/// Hard cap on the Simpson interval count: quadrature stops here whether
/// or not two successive estimates have agreed.
pub const QUAD_MAX: u64 = 1024;

/// Sweep threshold (0.5 radian in 1e-9 units) under which the arc
/// displacement is computed by the cardinal-sine series instead of the
/// radius formula, to avoid magnifying rounding by a large radius.
pub const SERIES_MAX: i64 = 500_000_000;

/// The shape a record is evaluated as, after degenerate redirection: an
/// arc of zero curvature becomes a line; a constant-curvature or
/// zero-length spiral becomes an arc (and further a line when that
/// curvature is zero).
pub open spec fn normalized_element(g: Geometry) -> GeometryElement {
    match g.element {
        GeometryElement::Line => GeometryElement::Line,
        GeometryElement::Arc { curvature } => {
            if curvature.nanos == 0 {
                GeometryElement::Line
            } else {
                g.element
            }
        },
        GeometryElement::Spiral { curv_start, curv_end } => {
            if curv_start.nanos == curv_end.nanos || g.length.nanos == 0 {
                if curv_start.nanos == 0 {
                    GeometryElement::Line
                } else {
                    GeometryElement::Arc { curvature: curv_start }
                }
            } else {
                g.element
            }
        },
        GeometryElement::Poly3 { .. } => g.element,
    }
}

/// The tangent direction at local arc length `t`: constant for a line,
/// linear in `t` for an arc, quadratic for a spiral.  For a polynomial
/// shape the reported heading is the heading of its start frame: the shape
/// is parameterized by its longitudinal coordinate, not by arc length, and
/// its tangent is exposed through the derivative of its segment form.
pub open spec fn heading_at(g: Geometry, t: int) -> int {
    match normalized_element(g) {
        GeometryElement::Line => g.hdg.nanos as int,
        GeometryElement::Arc { curvature } => g.hdg.nanos + tdiv(curvature.nanos * t,
            SCALE as int),
        GeometryElement::Spiral { curv_start, curv_end } => g.hdg.nanos + tdiv(
            curv_start.nanos * t,
            SCALE as int,
        ) + tdiv((curv_end.nanos - curv_start.nanos) * t * t, 2 * g.length.nanos * SCALE),
        GeometryElement::Poly3 { .. } => g.hdg.nanos as int,
    }
}

/// The curvature at local arc length `t`: zero for a line, constant for an
/// arc, linear for a spiral; zero for a polynomial shape (whose curvature
/// is not part of its natural parameterization).
pub open spec fn curvature_at(g: Geometry, t: int) -> int {
    match normalized_element(g) {
        GeometryElement::Line => 0,
        GeometryElement::Arc { curvature } => curvature.nanos as int,
        GeometryElement::Spiral { curv_start, curv_end } => curv_start.nanos + tdiv(
            (curv_end.nanos - curv_start.nanos) * t,
            g.length.nanos as int,
        ),
        GeometryElement::Poly3 { .. } => 0,
    }
}

/// The element, after degenerate redirection, executable.
pub fn normalized_exec(g: &Geometry) -> (e: GeometryElement)
    ensures
        e == normalized_element(*g),
{
    match g.element {
        GeometryElement::Line => GeometryElement::Line,
        GeometryElement::Arc { curvature } => {
            if curvature.nanos == 0 {
                GeometryElement::Line
            } else {
                g.element
            }
        },
        GeometryElement::Spiral { curv_start, curv_end } => {
            if curv_start.nanos == curv_end.nanos || g.length.nanos == 0 {
                if curv_start.nanos == 0 {
                    GeometryElement::Line
                } else {
                    GeometryElement::Arc { curvature: curv_start }
                }
            } else {
                g.element
            }
        },
        GeometryElement::Poly3 { .. } => g.element,
    }
}

/// The quadratic spiral term `(k1 - k0) t^2 / (2 L)` never exceeds
/// `4 (k1 - k0) t / SCALE` in magnitude for `t <= L`.
proof fn lemma_spiral_quad_bound(dk: int, t: int, l: int)
    requires
        -2 * MAX_CURV <= dk <= 2 * MAX_CURV,
        0 <= t <= l,
        1 <= l <= MAX_LEN,
    ensures
        iabs(tdiv(dk * t * t, 2 * l * SCALE)) <= 4 * MAX_LEN,
{
    assert(iabs(dk * t * t) <= 2 * MAX_CURV * MAX_LEN * l) by (nonlinear_arith)
        requires
            -2 * MAX_CURV <= dk <= 2 * MAX_CURV,
            0 <= t <= l,
            1 <= l <= MAX_LEN,
            MAX_CURV == 4_000_000_000,
            MAX_LEN == 100_000_000_000_000,
    ;
    lemma_tdiv_bound(dk * t * t, 2 * l * SCALE, 2 * MAX_CURV * MAX_LEN * l);
    assert(2 * MAX_CURV * MAX_LEN * l == (4 * MAX_LEN) * (2 * l * SCALE)) by (nonlinear_arith)
        requires
            MAX_CURV == 4_000_000_000,
            SCALE == 1_000_000_000,
    ;
    lemma_div_multiples_vanish(4 * MAX_LEN as int, 2 * l * SCALE);
    assert((4 * MAX_LEN) * (2 * l * SCALE) == (2 * l * SCALE) * (4 * MAX_LEN))
        by (nonlinear_arith);
}

/// The heading stays within the range the trigonometry accepts.
pub proof fn lemma_heading_in_range(g: Geometry, t: int)
    requires
        wf_geometry(g),
        0 <= t <= g.length.nanos,
    ensures
        -MAX_TRIG_ARG <= heading_at(g, t) <= MAX_TRIG_ARG,
{
    match normalized_element(g) {
        GeometryElement::Line => {},
        GeometryElement::Arc { curvature } => {
            lemma_mul_abs_bound(curvature.nanos as int, t, MAX_CURV as int, MAX_LEN as int);
            lemma_tdiv_bound(curvature.nanos * t, SCALE as int, MAX_CURV * MAX_LEN as int);
            lemma_div_is_ordered_by_denominator(MAX_CURV * MAX_LEN as int, 1, SCALE as int);
        },
        GeometryElement::Spiral { curv_start, curv_end } => {
            lemma_mul_abs_bound(curv_start.nanos as int, t, MAX_CURV as int, MAX_LEN as int);
            lemma_tdiv_bound(curv_start.nanos * t, SCALE as int, MAX_CURV * MAX_LEN as int);
            lemma_div_is_ordered_by_denominator(MAX_CURV * MAX_LEN as int, 1, SCALE as int);
            lemma_spiral_quad_bound(curv_end.nanos - curv_start.nanos, t, g.length.nanos as int);
        },
        GeometryElement::Poly3 { .. } => {},
    }
}

/// The tangent direction at local arc length `t`, executable.
pub fn heading_exec(g: &Geometry, t: i64) -> (h: i64)
    requires
        wf_geometry(*g),
        0 <= t <= g.length.nanos,
    ensures
        h == heading_at(*g, t as int),
        -MAX_TRIG_ARG <= h <= MAX_TRIG_ARG,
{
    proof {
        lemma_heading_in_range(*g, t as int);
    }
    match normalized_exec(g) {
        GeometryElement::Line => g.hdg.nanos,
        GeometryElement::Arc { curvature } => {
            proof {
                lemma_mul_abs_bound(curvature.nanos as int, t as int, MAX_CURV as int,
                    MAX_LEN as int);
                lemma_tdiv_bound(curvature.nanos as int * t, SCALE as int,
                    MAX_CURV * MAX_LEN as int);
            }
            let sweep: i64 = tdiv_i128((curvature.nanos as i128) * (t as i128),
                SCALE as i128) as i64;
            g.hdg.nanos + sweep
        },
        GeometryElement::Spiral { curv_start, curv_end } => {
            proof {
                lemma_mul_abs_bound(curv_start.nanos as int, t as int, MAX_CURV as int,
                    MAX_LEN as int);
                lemma_tdiv_bound(curv_start.nanos as int * t, SCALE as int,
                    MAX_CURV * MAX_LEN as int);
                lemma_spiral_quad_bound(curv_end.nanos - curv_start.nanos, t as int,
                    g.length.nanos as int);
                lemma_mul_abs_bound((curv_end.nanos - curv_start.nanos) as int, t as int,
                    2 * MAX_CURV as int, MAX_LEN as int);
                lemma_mul_abs_bound((curv_end.nanos - curv_start.nanos) as int * t, t as int,
                    2 * MAX_CURV * MAX_LEN as int, MAX_LEN as int);
            }
            let linear: i64 = tdiv_i128((curv_start.nanos as i128) * (t as i128),
                SCALE as i128) as i64;
            let dk: i128 = (curv_end.nanos as i128) - (curv_start.nanos as i128);
            let quad: i64 = tdiv_i128(dk * (t as i128) * (t as i128),
                2 * (g.length.nanos as i128) * (SCALE as i128)) as i64;
            g.hdg.nanos + linear + quad
        },
        GeometryElement::Poly3 { .. } => g.hdg.nanos,
    }
}

/// A truncated ramp `dk * t / l` stays between 0 and `dk` while `t` runs
/// over `[0, l]`.
proof fn lemma_ramp_range(dk: int, t: int, l: int)
    requires
        0 <= t <= l,
        1 <= l,
    ensures
        dk >= 0 ==> 0 <= tdiv(dk * t, l) <= dk,
        dk <= 0 ==> dk <= tdiv(dk * t, l) <= 0,
{
    if dk >= 0 {
        lemma_mul_nonnegative(dk, t);
        lemma_div_pos_is_pos(dk * t, l);
        lemma_mul_upper_bound(dk, dk, t, l);
        lemma_div_is_ordered(dk * t, dk * l, l);
        lemma_div_multiples_vanish(dk, l);
        assert(dk * l == l * dk) by (nonlinear_arith);
    } else {
        lemma_mul_nonnegative(-dk, t);
        lemma_div_pos_is_pos((-dk) * t, l);
        lemma_mul_upper_bound(-dk, -dk, t, l);
        lemma_div_is_ordered((-dk) * t, (-dk) * l, l);
        lemma_div_multiples_vanish(-dk, l);
        assert((-dk) * l == l * (-dk)) by (nonlinear_arith);
        assert((-dk) * t == -(dk * t)) by (nonlinear_arith);
    }
}

/// The curvature at local arc length `t`, executable.  A spiral's
/// curvature stays between its start and end curvatures, so the result is
/// always within the well-formed curvature range.
pub fn curvature_exec(g: &Geometry, t: i64) -> (k: Curvature)
    requires
        wf_geometry(*g),
        0 <= t <= g.length.nanos,
    ensures
        k.nanos == curvature_at(*g, t as int),
        -MAX_CURV <= k.nanos <= MAX_CURV,
{
    match normalized_exec(g) {
        GeometryElement::Line => Curvature { nanos: 0 },
        GeometryElement::Arc { curvature } => {
            proof {
                assert(-MAX_CURV <= curvature.nanos <= MAX_CURV);
            }
            curvature
        },
        GeometryElement::Spiral { curv_start, curv_end } => {
            proof {
                let l = g.length.nanos as int;
                let dkg = (curv_end.nanos - curv_start.nanos) as int;
                assert(g.element == (GeometryElement::Spiral { curv_start, curv_end }));
                assert(l >= 1);
                lemma_mul_abs_bound(dkg, t as int, 2 * MAX_CURV as int, MAX_LEN as int);
                lemma_ramp_range(dkg, t as int, l);
            }
            let dk: i128 = (curv_end.nanos as i128) - (curv_start.nanos as i128);
            let ramp: i64 = tdiv_i128(dk * (t as i128), g.length.nanos as i128) as i64;
            Curvature { nanos: curv_start.nanos + ramp }
        },
        GeometryElement::Poly3 { .. } => Curvature { nanos: 0 },
    }
}

/// The position of a straight course after `t`: the start position plus
/// `t` times the unit direction of the heading.
pub open spec fn line_position(g: Geometry, t: int) -> (int, int) {
    (
        g.x.nanos + tdiv(t * cos_nano(g.hdg.nanos as int), SCALE as int),
        g.y.nanos + tdiv(t * sin_nano(g.hdg.nanos as int), SCALE as int),
    )
}

/// The displacement of an arc after `t`, in the frame of its start pose:
/// `(sin(k t) / k, (1 - cos(k t)) / k)`.  For sweeps up to half a radian it
/// is computed as `t` times the cardinal sine and the versine ratio of the
/// sweep, which avoids dividing by a small curvature; beyond that, with the
/// radius formula (the radius is then below 2 t).
pub open spec fn arc_local(k: int, t: int) -> (int, int) {
    let theta = tdiv(k * t, SCALE as int);
    if -SERIES_MAX <= theta <= SERIES_MAX {
        (
            tdiv(t * sin_inner(iabs(theta)), SCALE as int),
            tdiv(t * tdiv(theta * cos_inner(iabs(theta)), 2 * SCALE), SCALE as int),
        )
    } else {
        let r = if k > 0 {
            tdiv(SCALE * SCALE, k)
        } else {
            -tdiv(SCALE * SCALE, -k)
        };
        (
            tdiv(r * sin_nano(theta), SCALE as int),
            tdiv(r * (SCALE - cos_nano(theta)), SCALE as int),
        )
    }
}

/// The position of an arc of curvature `k` after `t`: the local
/// displacement carried into the start frame.
pub open spec fn arc_position(g: Geometry, k: int, t: int) -> (int, int) {
    let local = arc_local(k, t);
    let c = cos_nano(g.hdg.nanos as int);
    let s = sin_nano(g.hdg.nanos as int);
    (g.x.nanos + rot_x(c, s, local.0, local.1), g.y.nanos + rot_y(c, s, local.0, local.1))
}

/// The lateral offset polynomial `a + b u + c u^2 + d u^3` in Horner form,
/// with each stage divided back to fixed point.
pub open spec fn poly3_value(a: int, b: int, c: int, d: int, u: int) -> int {
    a + tdiv(u * (b + tdiv(u * (c + tdiv(u * d, SCALE as int)), SCALE as int)), SCALE as int)
}

/// The position of a polynomial shape at longitudinal coordinate `u = t`:
/// the local point `(u, v(u))` carried into the start frame.
pub open spec fn poly3_position(g: Geometry, a: int, b: int, c: int, d: int, t: int) -> (
    int,
    int,
) {
    let v = poly3_value(a, b, c, d, t);
    let co = cos_nano(g.hdg.nanos as int);
    let si = sin_nano(g.hdg.nanos as int);
    (g.x.nanos + rot_x(co, si, t, v), g.y.nanos + rot_y(co, si, t, v))
}

/// The polynomial never leaves the span bound computed from the magnitudes
/// of its coefficients at the element length.
proof fn lemma_poly3_value_bound(a: int, b: int, c: int, d: int, u: int, l: int)
    requires
        0 <= u <= l,
        l <= MAX_LEN,
    ensures
        iabs(poly3_value(a, b, c, d, u)) <= crate::opendrive::poly3_span(a, b, c, d, l),
{
    let t1 = tdiv(u * d, SCALE as int);
    let m1 = tdiv(l * iabs(d), SCALE as int);
    lemma_mul_abs_bound(u, d, l, iabs(d));
    lemma_tdiv_abs(u * d, SCALE as int);
    lemma_mul_nonnegative(l, iabs(d));
    lemma_div_is_ordered(iabs(u * d), l * iabs(d), SCALE as int);
    assert(iabs(t1) <= m1);
    let t2 = tdiv(u * (c + t1), SCALE as int);
    let m2 = tdiv(l * (iabs(c) + m1), SCALE as int);
    lemma_mul_abs_bound(u, c + t1, l, iabs(c) + m1);
    lemma_tdiv_abs(u * (c + t1), SCALE as int);
    lemma_mul_nonnegative(l, iabs(c) + m1);
    lemma_div_is_ordered(iabs(u * (c + t1)), l * (iabs(c) + m1), SCALE as int);
    assert(iabs(t2) <= m2);
    let t3 = tdiv(u * (b + t2), SCALE as int);
    let m3 = tdiv(l * (iabs(b) + m2), SCALE as int);
    lemma_mul_abs_bound(u, b + t2, l, iabs(b) + m2);
    lemma_tdiv_abs(u * (b + t2), SCALE as int);
    lemma_mul_nonnegative(l, iabs(b) + m2);
    lemma_div_is_ordered(iabs(u * (b + t2)), l * (iabs(b) + m2), SCALE as int);
    assert(iabs(t3) <= m3);
}

/// The polynomial, executable.  The span precondition keeps every stage,
/// and the value itself, within the coordinate range.
fn poly3_value_exec(a: i64, b: i64, c: i64, d: i64, u: i64, l: i64) -> (v: i64)
    requires
        -MAX_POLY <= a <= MAX_POLY,
        -MAX_POLY <= b <= MAX_POLY,
        -MAX_POLY <= c <= MAX_POLY,
        -MAX_POLY <= d <= MAX_POLY,
        0 <= u <= l,
        l <= MAX_LEN,
        crate::opendrive::poly3_span(a as int, b as int, c as int, d as int, l as int)
            <= MAX_SPAN,
    ensures
        v == poly3_value(a as int, b as int, c as int, d as int, u as int),
        iabs(v as int) <= MAX_SPAN,
{
    proof {
        lemma_poly3_value_bound(a as int, b as int, c as int, d as int, u as int, l as int);
        lemma_mul_abs_bound(u as int, d as int, MAX_LEN as int, MAX_POLY as int);
        lemma_tdiv_bound(u as int * d, SCALE as int, MAX_LEN * MAX_POLY as int);
    }
    let t1: i128 = tdiv_i128((u as i128) * (d as i128), SCALE as i128);
    proof {
        lemma_mul_abs_bound(u as int, c + t1 as int, MAX_LEN as int,
            MAX_POLY + MAX_LEN * MAX_POLY / SCALE as int);
        lemma_tdiv_bound(u as int * (c + t1 as int), SCALE as int,
            MAX_LEN * (MAX_POLY + MAX_LEN * MAX_POLY / SCALE as int));
    }
    let t2: i128 = tdiv_i128((u as i128) * ((c as i128) + t1), SCALE as i128);
    proof {
        let m2 = MAX_LEN * (MAX_POLY + MAX_LEN * MAX_POLY / SCALE as int) / SCALE as int;
        lemma_mul_abs_bound(u as int, b + t2 as int, MAX_LEN as int, MAX_POLY + m2);
        lemma_tdiv_bound(u as int * (b + t2 as int), SCALE as int,
            MAX_LEN * (MAX_POLY + m2));
    }
    let t3: i128 = tdiv_i128((u as i128) * ((b as i128) + t2), SCALE as i128);
    ((a as i128) + t3) as i64
}

/// The local arc displacement, executable.
fn arc_local_exec(k: i64, t: i64) -> (r: (i64, i64))
    requires
        -MAX_CURV <= k <= MAX_CURV,
        k != 0,
        0 <= t <= MAX_LEN,
    ensures
        (r.0 as int, r.1 as int) == arc_local(k as int, t as int),
        iabs(r.0 as int) <= 4 * MAX_LEN,
        iabs(r.1 as int) <= 4 * MAX_LEN,
{
    proof {
        lemma_mul_abs_bound(k as int, t as int, MAX_CURV as int, MAX_LEN as int);
        lemma_tdiv_bound(k as int * t, SCALE as int, MAX_CURV * MAX_LEN as int);
    }
    let theta: i64 = tdiv_i128((k as i128) * (t as i128), SCALE as i128) as i64;
    if -SERIES_MAX <= theta && theta <= SERIES_MAX {
        let w: i64 = if theta >= 0 {
            theta
        } else {
            -theta
        };
        let si: i64 = crate::trig::sin_inner_exec(w);
        let ci: i64 = crate::trig::cos_inner_exec(w);
        proof {
            lemma_mul_abs_bound(t as int, si as int, MAX_LEN as int, SCALE as int);
            lemma_tdiv_bound(t as int * si, SCALE as int, MAX_LEN * SCALE as int);
            lemma_mul_abs_bound(theta as int, ci as int, SERIES_MAX as int, SCALE as int);
            lemma_tdiv_bound(theta as int * ci, 2 * SCALE as int, SERIES_MAX * SCALE as int);
        }
        let lx: i64 = tdiv_i128((t as i128) * (si as i128), SCALE as i128) as i64;
        let m: i64 = tdiv_i128((theta as i128) * (ci as i128), 2 * SCALE as i128) as i64;
        proof {
            lemma_mul_abs_bound(t as int, m as int, MAX_LEN as int, 250_000_000);
            lemma_tdiv_bound(t as int * m, SCALE as int, MAX_LEN * 250_000_000int);
        }
        let ly: i64 = tdiv_i128((t as i128) * (m as i128), SCALE as i128) as i64;
        (lx, ly)
    } else {
        proof {
            lemma_mul_abs_bound(k as int, t as int, iabs(k as int), t as int);
            lemma_tdiv_abs(k as int * t, SCALE as int);
            lemma_fundamental_div_mod(iabs(k as int * t), SCALE as int);
            lemma_mod_pos_bound(iabs(k as int * t), SCALE as int);
            assert(iabs(k as int) >= 5000) by (nonlinear_arith)
                requires
                    iabs(k as int * t) >= (SERIES_MAX + 1) * SCALE,
                    iabs(k as int * t) <= iabs(k as int) * t,
                    0 <= t <= MAX_LEN,
                    0 <= iabs(k as int),
                    SERIES_MAX == 500_000_000,
                    SCALE == 1_000_000_000,
                    MAX_LEN == 100_000_000_000_000,
            ;
        }
        let r: i64 = if k > 0 {
            proof {
                lemma_tdiv_abs(SCALE * SCALE, k as int);
                lemma_div_is_ordered_by_denominator(SCALE * SCALE, 5000, k as int);
            }
            tdiv_i128((SCALE as i128) * (SCALE as i128), k as i128) as i64
        } else {
            proof {
                lemma_tdiv_abs(SCALE * SCALE, -(k as int));
                lemma_div_is_ordered_by_denominator(SCALE * SCALE, 5000, -(k as int));
            }
            -(tdiv_i128((SCALE as i128) * (SCALE as i128), -(k as i128)) as i64)
        };
        let cs: (i64, i64) = sin_cos(theta);
        proof {
            lemma_mul_abs_bound(r as int, cs.1 as int, 200_000_000_000_000, SCALE as int);
            lemma_tdiv_bound(r as int * cs.1, SCALE as int, 200_000_000_000_000int * SCALE);
            lemma_mul_abs_bound(r as int, (SCALE - cs.0) as int, 200_000_000_000_000,
                2 * SCALE as int);
            lemma_tdiv_bound(r as int * (SCALE - cs.0), SCALE as int,
                200_000_000_000_000int * (2 * SCALE));
        }
        let lx: i64 = tdiv_i128((r as i128) * (cs.1 as i128), SCALE as i128) as i64;
        let ly: i64 = tdiv_i128((r as i128) * ((SCALE as i128) - (cs.0 as i128)),
            SCALE as i128) as i64;
        (lx, ly)
    }
}

/// The weight of sample `i` in a composite Simpson rule over `n`
/// intervals: 1 at the ends, alternating 4 and 2 inside.
pub open spec fn simpson_weight(i: int, n: int) -> int {
    if i == 0 || i == n {
        1
    } else if i % 2 == 1 {
        4
    } else {
        2
    }
}

/// The weighted tangent-direction sums of samples `0..=i` for a Simpson
/// rule with `n` intervals over `[0, t]`: the pair of cosine and sine
/// accumulators.
pub open spec fn simpson_acc(g: Geometry, t: int, n: int, i: int) -> (int, int)
    decreases i,
{
    if i <= 0 {
        (cos_nano(heading_at(g, 0)), sin_nano(heading_at(g, 0)))
    } else {
        let prev = simpson_acc(g, t, n, i - 1);
        let u = tdiv(i * t, n);
        (
            prev.0 + simpson_weight(i, n) * cos_nano(heading_at(g, u)),
            prev.1 + simpson_weight(i, n) * sin_nano(heading_at(g, u)),
        )
    }
}

/// The Simpson estimate of the tangent integral over `[0, t]` with `n`
/// intervals: `t / (3 n)` times the weighted sums.
pub open spec fn simpson_estimate(g: Geometry, t: int, n: int) -> (int, int) {
    let acc = simpson_acc(g, t, n, n);
    (tdiv(t * acc.0, 3 * n * SCALE), tdiv(t * acc.1, 3 * n * SCALE))
}

/// Whether doubling the interval count moves the estimate by at most the
/// quadrature tolerance in each coordinate.
pub open spec fn quad_converged(g: Geometry, t: int, n: int) -> bool {
    let a = simpson_estimate(g, t, n);
    let b = simpson_estimate(g, t, 2 * n);
    iabs(b.0 - a.0) <= QUAD_TOL && iabs(b.1 - a.1) <= QUAD_TOL
}

/// The interval count the doubling scheme settles on, starting from `n`:
/// the first doubling that agrees with its predecessor, or the cap.
pub open spec fn chosen_intervals(g: Geometry, t: int, n: int) -> int
    decreases QUAD_MAX - n,
        when 1 <= n < QUAD_MAX
{
    if quad_converged(g, t, n) || 2 * n >= QUAD_MAX {
        2 * n
    } else {
        chosen_intervals(g, t, 2 * n)
    }
}

/// Whether the doubling scheme starting from `n` reaches agreement before
/// the cap.
pub open spec fn quad_settled(g: Geometry, t: int, n: int) -> bool
    decreases QUAD_MAX - n,
        when 1 <= n < QUAD_MAX
{
    if quad_converged(g, t, n) {
        true
    } else if 2 * n >= QUAD_MAX {
        false
    } else {
        quad_settled(g, t, 2 * n)
    }
}

/// The position of a general spiral after `t`: the start position plus the
/// settled Simpson estimate of its tangent integral.
pub open spec fn spiral_position(g: Geometry, t: int) -> (int, int) {
    let e = simpson_estimate(g, t, chosen_intervals(g, t, QUAD_MIN as int));
    (g.x.nanos + e.0, g.y.nanos + e.1)
}

/// Where the curve of a record is after local arc length `t`.
pub open spec fn position_at(g: Geometry, t: int) -> (int, int) {
    match normalized_element(g) {
        GeometryElement::Line => line_position(g, t),
        GeometryElement::Arc { curvature } => arc_position(g, curvature.nanos as int, t),
        GeometryElement::Spiral { .. } => spiral_position(g, t),
        GeometryElement::Poly3 { a, b, c, d } => poly3_position(g, a as int, b as int,
            c as int, d as int, t),
    }
}

/// Whether evaluating the record leaves a quadrature caveat: only a
/// general spiral whose doubling scheme hits the cap without agreement.
pub open spec fn eval_caveat(g: Geometry) -> bool {
    match normalized_element(g) {
        GeometryElement::Spiral { .. } => !quad_settled(g, g.length.nanos as int,
            QUAD_MIN as int),
        _ => false,
    }
}

/// One sample of the composite Simpson rule folded into the running
/// sums: the weighted tangent direction at sample `i`.
#[verifier::rlimit(100)]
fn simpson_step(g: &Geometry, t: i64, n: u64, i: u64, acc: (i128, i128)) -> (r: (i128, i128))
    requires
        wf_geometry(*g),
        0 <= t <= g.length.nanos,
        2 <= n <= QUAD_MAX,
        1 <= i <= n,
        (acc.0 as int, acc.1 as int) == simpson_acc(*g, t as int, n as int, i - 1),
        -4_000_000_000 * i <= acc.0 as int <= 4_000_000_000 * i,
        -4_000_000_000 * i <= acc.1 as int <= 4_000_000_000 * i,
    ensures
        (r.0 as int, r.1 as int) == simpson_acc(*g, t as int, n as int, i as int),
        -4_000_000_000 * (i + 1) <= r.0 as int <= 4_000_000_000 * (i + 1),
        -4_000_000_000 * (i + 1) <= r.1 as int <= 4_000_000_000 * (i + 1),
{
    proof {
        lemma_mul_abs_bound(i as int, t as int, QUAD_MAX as int, MAX_LEN as int);
        lemma_mul_nonnegative(i as int, t as int);
        lemma_div_pos_is_pos(i as int * t, n as int);
        lemma_mul_inequality(i as int, n as int, t as int);
        lemma_div_is_ordered(i as int * t, n as int * t, n as int);
        assert(n as int * t == t * (n as int)) by (nonlinear_arith);
        lemma_div_multiples_vanish(t as int, n as int);
    }
    let u: i64 = tdiv_i128((i as i128) * (t as i128), n as i128) as i64;
    let w: i64 = if i == n {
        1
    } else if i % 2 == 1 {
        4
    } else {
        2
    };
    let h: i64 = heading_exec(g, u);
    let cs: (i64, i64) = sin_cos(h);
    proof {
        assert(w == simpson_weight(i as int, n as int));
        assert(-4 * SCALE <= (w as int) * (cs.0 as int) <= 4 * SCALE) by (nonlinear_arith)
            requires
                1 <= w <= 4,
                -SCALE <= cs.0 <= SCALE,
                SCALE == 1_000_000_000,
        ;
        assert(-4 * SCALE <= (w as int) * (cs.1 as int) <= 4 * SCALE) by (nonlinear_arith)
            requires
                1 <= w <= 4,
                -SCALE <= cs.1 <= SCALE,
                SCALE == 1_000_000_000,
        ;
    }
    let rc: i128 = acc.0 + (w as i128) * (cs.0 as i128);
    let rs: i128 = acc.1 + (w as i128) * (cs.1 as i128);
    (rc, rs)
}

/// One full pass of the composite Simpson rule, executable: the weighted
/// cosine and sine sums over all `n + 1` samples.
fn simpson_pass(g: &Geometry, t: i64, n: u64) -> (acc: (i128, i128))
    requires
        wf_geometry(*g),
        0 <= t <= g.length.nanos,
        2 <= n <= QUAD_MAX,
    ensures
        (acc.0 as int, acc.1 as int) == simpson_acc(*g, t as int, n as int, n as int),
        iabs(acc.0 as int) <= 4_000_000_000 * (n + 1),
        iabs(acc.1 as int) <= 4_000_000_000 * (n + 1),
{
    let h0: i64 = heading_exec(g, 0);
    let cs0: (i64, i64) = sin_cos(h0);
    let mut acc: (i128, i128) = (cs0.0 as i128, cs0.1 as i128);
    let mut i: u64 = 1;
    while i <= n
        invariant
            wf_geometry(*g),
            0 <= t <= g.length.nanos,
            2 <= n <= QUAD_MAX,
            1 <= i <= n + 1,
            (acc.0 as int, acc.1 as int) == simpson_acc(*g, t as int, n as int, i - 1),
            -4_000_000_000 * i <= acc.0 as int <= 4_000_000_000 * i,
            -4_000_000_000 * i <= acc.1 as int <= 4_000_000_000 * i,
        decreases n + 1 - i,
    {
        acc = simpson_step(g, t, n, i, acc);
        i = i + 1;
    }
    proof {
        assert(iabs(acc.0 as int) <= 4_000_000_000 * (n + 1));
        assert(iabs(acc.1 as int) <= 4_000_000_000 * (n + 1));
    }
    (acc.0, acc.1)
}

/// The Simpson estimate with `n` intervals, executable.
fn simpson_estimate_exec(g: &Geometry, t: i64, n: u64) -> (e: (i64, i64))
    requires
        wf_geometry(*g),
        0 <= t <= g.length.nanos,
        2 <= n <= QUAD_MAX,
    ensures
        (e.0 as int, e.1 as int) == simpson_estimate(*g, t as int, n as int),
        iabs(e.0 as int) <= 2 * MAX_LEN,
        iabs(e.1 as int) <= 2 * MAX_LEN,
{
    let acc: (i128, i128) = simpson_pass(g, t, n);
    proof {
        lemma_mul_abs_bound(t as int, acc.0 as int, MAX_LEN as int, 4_000_000_000 * (n + 1));
        lemma_mul_abs_bound(t as int, acc.1 as int, MAX_LEN as int, 4_000_000_000 * (n + 1));
        lemma_simpson_estimate_bound(t as int, n as int, acc.0 as int);
        lemma_simpson_estimate_bound(t as int, n as int, acc.1 as int);
    }
    let ex: i64 = tdiv_i128((t as i128) * acc.0, 3 * (n as i128) * (SCALE as i128)) as i64;
    let ey: i64 = tdiv_i128((t as i128) * acc.1, 3 * (n as i128) * (SCALE as i128)) as i64;
    (ex, ey)
}

/// Scaling a weighted sum by `t / (3 n)` keeps it below `2 t` (and so
/// below twice the longest element).
proof fn lemma_simpson_estimate_bound(t: int, n: int, acc: int)
    requires
        0 <= t <= MAX_LEN,
        2 <= n <= QUAD_MAX,
        iabs(acc) <= 4_000_000_000 * (n + 1),
    ensures
        iabs(tdiv(t * acc, 3 * n * SCALE)) <= 2 * MAX_LEN,
{
    lemma_mul_abs_bound(t, acc, MAX_LEN as int, 4_000_000_000 * (n + 1));
    assert(MAX_LEN * (4_000_000_000 * (n + 1)) <= (2 * MAX_LEN) * (3 * n * SCALE))
        by (nonlinear_arith)
        requires
            2 <= n,
            MAX_LEN == 100_000_000_000_000,
            SCALE == 1_000_000_000,
    ;
    lemma_tdiv_bound(t * acc, 3 * n * SCALE, (2 * MAX_LEN) * (3 * n * SCALE));
    assert((2 * MAX_LEN) * (3 * n * SCALE) == (3 * n * SCALE) * (2 * MAX_LEN))
        by (nonlinear_arith);
    lemma_div_multiples_vanish(2 * MAX_LEN as int, 3 * n * SCALE);
}

/// The tangent integral of a general spiral over `[0, t]` by the doubling
/// scheme, executable: the settled estimate and whether agreement was
/// reached before the cap.
fn spiral_integrate(g: &Geometry, t: i64) -> (res: (i64, i64, bool))
    requires
        wf_geometry(*g),
        0 <= t <= g.length.nanos,
    ensures
        (res.0 as int, res.1 as int) == simpson_estimate(*g, t as int,
            chosen_intervals(*g, t as int, QUAD_MIN as int)),
        res.2 == quad_settled(*g, t as int, QUAD_MIN as int),
        iabs(res.0 as int) <= 2 * MAX_LEN,
        iabs(res.1 as int) <= 2 * MAX_LEN,
{
    let mut n: u64 = QUAD_MIN;
    let mut prev: (i64, i64) = simpson_estimate_exec(g, t, QUAD_MIN);
    loop
        invariant
            wf_geometry(*g),
            0 <= t <= g.length.nanos,
            n == 8 || n == 16 || n == 32 || n == 64 || n == 128 || n == 256 || n == 512,
            (prev.0 as int, prev.1 as int) == simpson_estimate(*g, t as int, n as int),
            iabs(prev.0 as int) <= 2 * MAX_LEN,
            iabs(prev.1 as int) <= 2 * MAX_LEN,
            chosen_intervals(*g, t as int, QUAD_MIN as int) == chosen_intervals(*g, t as int,
                n as int),
            quad_settled(*g, t as int, QUAD_MIN as int) == quad_settled(*g, t as int, n as int),
        decreases QUAD_MAX - n,
    {
        let next: (i64, i64) = simpson_estimate_exec(g, t, 2 * n);
        let dx: i64 = if next.0 >= prev.0 {
            next.0 - prev.0
        } else {
            prev.0 - next.0
        };
        let dy: i64 = if next.1 >= prev.1 {
            next.1 - prev.1
        } else {
            prev.1 - next.1
        };
        if dx <= QUAD_TOL && dy <= QUAD_TOL {
            proof {
                assert(quad_converged(*g, t as int, n as int));
            }
            return (next.0, next.1, true);
        }
        if 2 * n >= QUAD_MAX {
            proof {
                assert(!quad_converged(*g, t as int, n as int));
            }
            return (next.0, next.1, false);
        }
        proof {
            assert(!quad_converged(*g, t as int, n as int));
            assert(chosen_intervals(*g, t as int, n as int) == chosen_intervals(*g, t as int,
                2 * n as int));
            assert(quad_settled(*g, t as int, n as int) == quad_settled(*g, t as int,
                2 * n as int));
        }
        prev = next;
        n = 2 * n;
    }
}

/// One evaluated primitive: a closed description of its curve, supporting
/// position, heading and curvature queries over `t` in `[0, length]`, and
/// the derived end pose.  Immutable once created.
#[derive(Clone, Copy, Debug, PartialEq, Eq, Structural, Hash)]
pub struct EvaluatedCurve {
    /// The record this curve was evaluated from.
    pub geometry: Geometry,
    /// Whether the spiral quadrature hit its interval cap without two
    /// successive estimates agreeing; the curve is still usable, with the
    /// capped estimate.
    pub caveat: bool,
}

/// Evaluate one geometry record into a curve.  Total: every well-formed
/// record evaluates; a non-converging spiral quadrature only sets the
/// caveat flag.
pub fn evaluate(g: &Geometry) -> (c: EvaluatedCurve)
    requires
        wf_geometry(*g),
    ensures
        c.geometry == *g,
        c.caveat == eval_caveat(*g),
{
    let caveat: bool = match normalized_exec(g) {
        GeometryElement::Spiral { .. } => {
            let r: (i64, i64, bool) = spiral_integrate(g, g.length.nanos);
            !r.2
        },
        _ => false,
    };
    EvaluatedCurve { geometry: *g, caveat }
}

impl EvaluatedCurve {
    /// Where the curve is after local arc length `t`.
    pub fn position(&self, t: Length) -> (p: Point2)
        requires
            wf_geometry(self.geometry),
            0 <= t.nanos <= self.geometry.length.nanos,
        ensures
            (p.x.nanos as int, p.y.nanos as int) == position_at(self.geometry, t.nanos as int),
            iabs(p.x.nanos as int) <= MAX_COORD + MAX_SPAN + 8 * MAX_LEN,
            iabs(p.y.nanos as int) <= MAX_COORD + MAX_SPAN + 8 * MAX_LEN,
    {
        position_exec(&self.geometry, t.nanos)
    }

    /// The tangent direction after local arc length `t`.
    pub fn heading(&self, t: Length) -> (h: Angle)
        requires
            wf_geometry(self.geometry),
            0 <= t.nanos <= self.geometry.length.nanos,
        ensures
            h.nanos == heading_at(self.geometry, t.nanos as int),
            -MAX_TRIG_ARG <= h.nanos <= MAX_TRIG_ARG,
    {
        Angle { nanos: heading_exec(&self.geometry, t.nanos) }
    }

    /// The curvature after local arc length `t`.
    pub fn curvature(&self, t: Length) -> (k: Curvature)
        requires
            wf_geometry(self.geometry),
            0 <= t.nanos <= self.geometry.length.nanos,
        ensures
            k.nanos == curvature_at(self.geometry, t.nanos as int),
            -MAX_CURV <= k.nanos <= MAX_CURV,
    {
        curvature_exec(&self.geometry, t.nanos)
    }

    /// The pose at the end of the curve: the position and heading at
    /// `t == length`.
    pub fn end_pose(&self) -> (p: Pose)
        requires
            wf_geometry(self.geometry),
        ensures
            (p.position.x.nanos as int, p.position.y.nanos as int) == position_at(
                self.geometry,
                self.geometry.length.nanos as int,
            ),
            p.heading.nanos == heading_at(self.geometry, self.geometry.length.nanos as int),
            iabs(p.position.x.nanos as int) <= MAX_COORD + MAX_SPAN + 8 * MAX_LEN,
            iabs(p.position.y.nanos as int) <= MAX_COORD + MAX_SPAN + 8 * MAX_LEN,
    {
        let len: Length = self.geometry.length;
        Pose { position: self.position(len), heading: self.heading(len) }
    }
}

/// Where the curve of a record is after local arc length `t`, executable.
pub fn position_exec(g: &Geometry, t: i64) -> (p: Point2)
    requires
        wf_geometry(*g),
        0 <= t <= g.length.nanos,
    ensures
        (p.x.nanos as int, p.y.nanos as int) == position_at(*g, t as int),
        iabs(p.x.nanos as int) <= MAX_COORD + MAX_SPAN + 8 * MAX_LEN,
        iabs(p.y.nanos as int) <= MAX_COORD + MAX_SPAN + 8 * MAX_LEN,
{
    let rot: Rotation = Rotation::new(g.hdg);
    match normalized_exec(g) {
        GeometryElement::Line => {
            proof {
                lemma_mul_abs_bound(t as int, rot.cos as int, MAX_LEN as int, SCALE as int);
                lemma_tdiv_bound(t as int * rot.cos, SCALE as int, MAX_LEN * SCALE as int);
                lemma_mul_abs_bound(t as int, rot.sin as int, MAX_LEN as int, SCALE as int);
                lemma_tdiv_bound(t as int * rot.sin, SCALE as int, MAX_LEN * SCALE as int);
            }
            let dx: i64 = tdiv_i128((t as i128) * (rot.cos as i128), SCALE as i128) as i64;
            let dy: i64 = tdiv_i128((t as i128) * (rot.sin as i128), SCALE as i128) as i64;
            Point2 {
                x: Length { nanos: g.x.nanos + dx },
                y: Length { nanos: g.y.nanos + dy },
            }
        },
        GeometryElement::Arc { curvature } => {
            proof {
                assert(-MAX_CURV <= curvature.nanos <= MAX_CURV && curvature.nanos != 0);
            }
            let local: (i64, i64) = arc_local_exec(curvature.nanos, t);
            let w: (i64, i64) = rot.transform_vector(local.0, local.1);
            Point2 {
                x: Length { nanos: g.x.nanos + w.0 },
                y: Length { nanos: g.y.nanos + w.1 },
            }
        },
        GeometryElement::Spiral { .. } => {
            let e: (i64, i64, bool) = spiral_integrate(g, t);
            Point2 {
                x: Length { nanos: g.x.nanos + e.0 },
                y: Length { nanos: g.y.nanos + e.1 },
            }
        },
        GeometryElement::Poly3 { a, b, c, d } => {
            proof {
                assert(g.element == (GeometryElement::Poly3 { a, b, c, d }));
            }
            let v: i64 = poly3_value_exec(a, b, c, d, t, g.length.nanos);
            let w: (i64, i64) = rot.transform_vector(t, v);
            Point2 {
                x: Length { nanos: g.x.nanos + w.0 },
                y: Length { nanos: g.y.nanos + w.1 },
            }
        },
    }
}

} // verus!
