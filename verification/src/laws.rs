//! Cross-cutting guarantees of the evaluator, stated and proved once.
//!
//! Each law here relates the evaluator's spec functions across shapes: the
//! end pose agrees with the shape's closed form, degenerate records
//! evaluate identically to the shapes they reduce to, and the sign of an
//! arc's curvature decides which side of the travel direction its center
//! lies on.

use crate::curve::{
    arc_position, curvature_at, heading_at, line_position, normalized_element, position_at,
};
use crate::opendrive::{arc_center, arc_radius, wf_geometry, Geometry, GeometryElement};
use crate::scalar::{iabs, lemma_tdiv_abs, tdiv, Curvature, MAX_CURV, SCALE};
use crate::trig::{cos_nano, lemma_dir_nonzero, sin_nano, C_MIN};
use crate::types::{rot_x, rot_y};
use vstd::arithmetic::div_mod::lemma_div_is_ordered_by_denominator;
use vstd::prelude::*;

verus! {

/// Continuity of evaluation: the end pose — the position and heading
/// sampled at `t == length` — equals the closed-form end pose of the
/// shape the record evaluates as: the straight-line endpoint for a line,
/// the rotated-chord endpoint and `heading + curvature * length` for an
/// arc (a constant-curvature spiral reduces to exactly that arc form).
pub proof fn lemma_end_pose_closed_form(g: Geometry)
    requires
        wf_geometry(g),
    ensures
        normalized_element(g) is Line ==> position_at(g, g.length.nanos as int)
            == line_position(g, g.length.nanos as int) && heading_at(g, g.length.nanos as int)
            == g.hdg.nanos,
        normalized_element(g) matches GeometryElement::Arc { curvature } ==> position_at(
            g,
            g.length.nanos as int,
        ) == arc_position(g, curvature.nanos as int, g.length.nanos as int) && heading_at(
            g,
            g.length.nanos as int,
        ) == g.hdg.nanos + tdiv(curvature.nanos * g.length.nanos, SCALE as int),
{
}

/// Degenerate equivalence, first half: an arc of zero curvature evaluates
/// exactly as the line with the same header, at every sample point.
pub proof fn lemma_arc_zero_is_line(ga: Geometry, gl: Geometry, t: int)
    requires
        ga.element == (GeometryElement::Arc { curvature: Curvature { nanos: 0 } }),
        gl.element == GeometryElement::Line,
        ga.s == gl.s,
        ga.x == gl.x,
        ga.y == gl.y,
        ga.hdg == gl.hdg,
        ga.length == gl.length,
    ensures
        position_at(ga, t) == position_at(gl, t),
        heading_at(ga, t) == heading_at(gl, t),
        curvature_at(ga, t) == curvature_at(gl, t),
{
}

/// Degenerate equivalence, second half: a spiral of constant curvature
/// evaluates exactly as the arc of that curvature with the same header, at
/// every sample point — for zero and nonzero curvature alike.
pub proof fn lemma_spiral_const_is_arc(gs: Geometry, ga: Geometry, k: Curvature, t: int)
    requires
        gs.element == (GeometryElement::Spiral { curv_start: k, curv_end: k }),
        ga.element == (GeometryElement::Arc { curvature: k }),
        gs.s == ga.s,
        gs.x == ga.x,
        gs.y == ga.y,
        gs.hdg == ga.hdg,
        gs.length == ga.length,
    ensures
        position_at(gs, t) == position_at(ga, t),
        heading_at(gs, t) == heading_at(ga, t),
        curvature_at(gs, t) == curvature_at(ga, t),
{
}

/// The sign of a truncating quotient follows the sign of its dividend.
proof fn lemma_tdiv_sign(a: int, d: int)
    requires
        d > 0,
    ensures
        a >= 0 ==> tdiv(a, d) >= 0,
        a <= 0 ==> tdiv(a, d) <= 0,
        iabs(a) >= d ==> iabs(tdiv(a, d)) >= 1,
{
    lemma_tdiv_abs(a, d);
    if a >= 0 {
        vstd::arithmetic::div_mod::lemma_div_pos_is_pos(a, d);
    } else {
        vstd::arithmetic::div_mod::lemma_div_pos_is_pos(-a, d);
    }
    if iabs(a) >= d {
        vstd::arithmetic::div_mod::lemma_div_is_ordered(d, iabs(a), d);
        vstd::arithmetic::div_mod::lemma_div_by_self(d);
    }
}

/// Arc sign convention: the center of an arc record lies strictly on the
/// side of the travel direction that the curvature's sign names — left for
/// positive, right for negative.  The side is measured by the z component
/// of the cross product of the start direction and the vector from the
/// start position to the center.
pub proof fn lemma_arc_center_side(g: Geometry, k: Curvature)
    requires
        wf_geometry(g),
        g.element == (GeometryElement::Arc { curvature: k }),
        k.nanos != 0,
    ensures
        ({
            let c = cos_nano(g.hdg.nanos as int);
            let s = sin_nano(g.hdg.nanos as int);
            let offx = arc_center(g, k.nanos as int).0 - g.x.nanos;
            let offy = arc_center(g, k.nanos as int).1 - g.y.nanos;
            let cross = c * offy - s * offx;
            &&& (k.nanos < 0 ==> cross < 0)
            &&& (k.nanos > 0 ==> cross > 0)
        }),
{
    let h = g.hdg.nanos as int;
    let c = cos_nano(h);
    let s = sin_nano(h);
    let r = arc_radius(k.nanos as int);
    let offx = rot_x(c, s, 0, r);
    let offy = rot_y(c, s, 0, r);
    assert(arc_center(g, k.nanos as int).0 - g.x.nanos == offx);
    assert(arc_center(g, k.nanos as int).1 - g.y.nanos == offy);
    // The radius keeps the curvature's sign and has magnitude at least
    // SCALE^2 / MAX_CURV.
    if k.nanos > 0 {
        lemma_tdiv_abs(SCALE * SCALE, k.nanos as int);
        lemma_div_is_ordered_by_denominator(SCALE * SCALE, k.nanos as int, MAX_CURV as int);
        vstd::arithmetic::div_mod::lemma_div_pos_is_pos(SCALE * SCALE, k.nanos as int);
    } else {
        lemma_tdiv_abs(SCALE * SCALE, -(k.nanos as int));
        lemma_div_is_ordered_by_denominator(SCALE * SCALE, -(k.nanos as int), MAX_CURV as int);
        vstd::arithmetic::div_mod::lemma_div_pos_is_pos(SCALE * SCALE, -(k.nanos as int));
    }
    assert(iabs(r) >= 250_000_000);
    assert(k.nanos > 0 ==> r > 0);
    assert(k.nanos < 0 ==> r < 0);
    // offx = tdiv(-s * r, SCALE), offy = tdiv(c * r, SCALE): each term of
    // the cross product carries the sign of r.
    assert(c * 0 == 0) by (nonlinear_arith);
    assert(s * 0 == 0) by (nonlinear_arith);
    assert(offx == tdiv(-(s * r), SCALE as int));
    assert(offy == tdiv(c * r, SCALE as int));
    lemma_tdiv_sign(c * r, SCALE as int);
    lemma_tdiv_sign(-(s * r), SCALE as int);
    lemma_dir_nonzero(h);
    let term1 = c * offy;
    let term2 = s * offx;
    // Sign analysis of c * tdiv(c*r, SCALE): the inner quotient has the
    // sign of c*r, so the product has the sign of r (or is zero).
    assert((r > 0 ==> term1 >= 0) && (r < 0 ==> term1 <= 0)) by (nonlinear_arith)
        requires
            offy == tdiv(c * r, SCALE as int),
            c * r >= 0 ==> offy >= 0,
            c * r <= 0 ==> offy <= 0,
            term1 == c * offy,
    ;
    assert((r > 0 ==> term2 <= 0) && (r < 0 ==> term2 >= 0)) by (nonlinear_arith)
        requires
            offx == tdiv(-(s * r), SCALE as int),
            -(s * r) >= 0 ==> offx >= 0,
            -(s * r) <= 0 ==> offx <= 0,
            term2 == s * offx,
    ;
    // Strictness: the component of the direction with magnitude at least
    // C_MIN makes its term strictly signed.
    if iabs(c) >= C_MIN {
        assert(iabs(c * r) >= SCALE) by (nonlinear_arith)
            requires
                iabs(c) >= C_MIN,
                iabs(r) >= 250_000_000,
                C_MIN == 691_574_862,
                SCALE == 1_000_000_000,
                iabs(c) == if c >= 0 { c } else { -c },
                iabs(r) == if r >= 0 { r } else { -r },
                iabs(c * r) == if c * r >= 0 { c * r } else { -(c * r) },
        ;
        assert(iabs(offy) >= 1);
        assert((r > 0 ==> term1 > 0) && (r < 0 ==> term1 < 0)) by (nonlinear_arith)
            requires
                offy == tdiv(c * r, SCALE as int),
                c * r >= 0 ==> offy >= 0,
                c * r <= 0 ==> offy <= 0,
                iabs(offy) >= 1,
                iabs(c) >= C_MIN,
                C_MIN == 691_574_862,
                term1 == c * offy,
                iabs(c) == if c >= 0 { c } else { -c },
                iabs(offy) == if offy >= 0 { offy } else { -offy },
                r != 0,
                iabs(c * r) >= SCALE,
                SCALE == 1_000_000_000,
        ;
    } else {
        assert(iabs(s) >= C_MIN);
        assert(iabs(s * r) >= SCALE) by (nonlinear_arith)
            requires
                iabs(s) >= C_MIN,
                iabs(r) >= 250_000_000,
                C_MIN == 691_574_862,
                SCALE == 1_000_000_000,
                iabs(s) == if s >= 0 { s } else { -s },
                iabs(r) == if r >= 0 { r } else { -r },
                iabs(s * r) == if s * r >= 0 { s * r } else { -(s * r) },
        ;
        assert(iabs(-(s * r)) >= SCALE);
        assert(iabs(offx) >= 1);
        assert((r > 0 ==> term2 < 0) && (r < 0 ==> term2 > 0)) by (nonlinear_arith)
            requires
                offx == tdiv(-(s * r), SCALE as int),
                -(s * r) >= 0 ==> offx >= 0,
                -(s * r) <= 0 ==> offx <= 0,
                iabs(offx) >= 1,
                iabs(s) >= C_MIN,
                C_MIN == 691_574_862,
                term2 == s * offx,
                iabs(s) == if s >= 0 { s } else { -s },
                iabs(offx) == if offx >= 0 { offx } else { -offx },
                r != 0,
                iabs(s * r) >= SCALE,
                iabs(s * r) == if s * r >= 0 { s * r } else { -(s * r) },
                SCALE == 1_000_000_000,
        ;
    }
}

} // verus!
