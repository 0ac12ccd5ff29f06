//! The curve evaluator against closed-form references.

use opendrive::curve::evaluate;
use opendrive::opendrive::{Geometry, GeometryElement};
use opendrive::scalar::{Angle, Curvature, Length};
use opendrive::types::Segment;

fn nanos(x: f64) -> i64 {
    (x * 1e9).round() as i64
}

fn meters(n: i64) -> f64 {
    n as f64 / 1e9
}

fn geometry(s: f64, x: f64, y: f64, hdg: f64, length: f64, element: GeometryElement) -> Geometry {
    Geometry {
        s: Length::from_nanos(nanos(s)),
        x: Length::from_nanos(nanos(x)),
        y: Length::from_nanos(nanos(y)),
        hdg: Angle::from_nanos(nanos(hdg)),
        length: Length::from_nanos(nanos(length)),
        element,
    }
}

#[test]
fn degenerate_arc_matches_line() {
    let line = geometry(0.0, 3.5, -1.25, 0.4, 20.0, GeometryElement::Line);
    let arc0 = geometry(
        0.0,
        3.5,
        -1.25,
        0.4,
        20.0,
        GeometryElement::Arc { curvature: Curvature::from_nanos(0) },
    );
    let cl = evaluate(&line);
    let ca = evaluate(&arc0);
    for t in [0i64, 5_000_000_000, 13_333_333_333, 20_000_000_000] {
        let tt = Length::from_nanos(t);
        assert_eq!(ca.position(tt), cl.position(tt));
        assert_eq!(ca.heading(tt), cl.heading(tt));
        assert_eq!(ca.curvature(tt), cl.curvature(tt));
    }
}

#[test]
fn degenerate_spiral_matches_arc() {
    for k in [-5.9114369622925669e-02, 0.0, 0.08] {
        let sp = geometry(
            0.0,
            1.0,
            2.0,
            -0.7,
            12.0,
            GeometryElement::Spiral {
                curv_start: Curvature::from_nanos(nanos(k)),
                curv_end: Curvature::from_nanos(nanos(k)),
            },
        );
        let ar = geometry(
            0.0,
            1.0,
            2.0,
            -0.7,
            12.0,
            GeometryElement::Arc { curvature: Curvature::from_nanos(nanos(k)) },
        );
        let cs = evaluate(&sp);
        let ca = evaluate(&ar);
        for t in [0i64, 3_000_000_000, 12_000_000_000] {
            let tt = Length::from_nanos(t);
            assert_eq!(cs.position(tt), ca.position(tt));
            assert_eq!(cs.heading(tt), ca.heading(tt));
            assert_eq!(cs.curvature(tt), ca.curvature(tt));
        }
        assert!(!cs.caveat);
    }
}

#[test]
fn line_end_pose_closed_form() {
    let g = geometry(0.0, -3.0, 8.5, 1.1, 42.0, GeometryElement::Line);
    let c = evaluate(&g);
    let end = c.end_pose();
    let ex = nanos(-3.0 + 42.0 * (1.1f64).cos());
    let ey = nanos(8.5 + 42.0 * (1.1f64).sin());
    assert!((end.position.x.nanos - ex).abs() <= 1000);
    assert!((end.position.y.nanos - ey).abs() <= 1000);
    assert_eq!(end.heading.nanos, nanos(1.1));
    // The end pose is the sampled state at t == length.
    let full = Length::from_nanos(nanos(42.0));
    assert_eq!(end.position, c.position(full));
    assert_eq!(end.heading, c.heading(full));
}

#[test]
fn arc_end_pose_closed_form() {
    let k = -5.9114369622925669e-02;
    let (h, len) = (0.3, 10.0);
    let g = geometry(
        0.0,
        0.0,
        0.0,
        h,
        len,
        GeometryElement::Arc { curvature: Curvature::from_nanos(nanos(k)) },
    );
    let c = evaluate(&g);
    let end = c.end_pose();
    // Rotated-chord endpoint: walking the circle from the start point.
    let ex = nanos(((h + k * len).sin() - h.sin()) / k);
    let ey = nanos(-(((h + k * len).cos() - h.cos()) / k));
    assert!((end.position.x.nanos - ex).abs() <= 1000);
    assert!((end.position.y.nanos - ey).abs() <= 1000);
}

#[test]
fn arc_sign_convention() {
    let k = -5.9114369622925669e-02;
    let h = 0.3f64;
    let g = geometry(
        0.0,
        4.0,
        -2.0,
        h,
        10.0,
        GeometryElement::Arc { curvature: Curvature::from_nanos(nanos(k)) },
    );
    // Heading after the full sweep is exactly heading + curvature * length.
    let c = evaluate(&g);
    let sweep = (nanos(k) as i128) * (nanos(10.0) as i128) / 1_000_000_000;
    assert_eq!(
        c.heading(Length::from_nanos(nanos(10.0))).nanos as i128,
        nanos(h) as i128 + sweep
    );
    // The center sits to the right of the direction of travel.
    let seg = g.as_segment();
    let center = match seg {
        Segment::Arc(a) => a.center,
        _ => panic!("an arc record must map to an arc segment"),
    };
    let off_x = meters(center.x.nanos) - 4.0;
    let off_y = meters(center.y.nanos) - (-2.0);
    let cross = h.cos() * off_y - h.sin() * off_x;
    assert!(cross < 0.0);

    // And a left-turning arc puts it on the left.
    let gl = geometry(
        0.0,
        4.0,
        -2.0,
        h,
        10.0,
        GeometryElement::Arc { curvature: Curvature::from_nanos(nanos(-k)) },
    );
    let segl = gl.as_segment();
    let centerl = match segl {
        Segment::Arc(a) => a.center,
        _ => panic!("an arc record must map to an arc segment"),
    };
    let lx = meters(centerl.x.nanos) - 4.0;
    let ly = meters(centerl.y.nanos) - (-2.0);
    assert!(h.cos() * ly - h.sin() * lx > 0.0);
}

#[test]
fn spiral_against_reference_quadrature() {
    let (k0, k1, len) = (0.001f64, 0.05f64, 30.0f64);
    let g = geometry(
        0.0,
        1.0,
        2.0,
        0.1,
        len,
        GeometryElement::Spiral {
            curv_start: Curvature::from_nanos(nanos(k0)),
            curv_end: Curvature::from_nanos(nanos(k1)),
        },
    );
    let c = evaluate(&g);
    assert!(!c.caveat);
    let end = c.end_pose();
    // Dense midpoint quadrature of the tangent integral as the reference.
    let steps = 60000;
    let mut ix = 0.0f64;
    let mut iy = 0.0f64;
    for i in 0..steps {
        let u = (i as f64 + 0.5) * len / steps as f64;
        let head = 0.1 + k0 * u + (k1 - k0) * u * u / (2.0 * len);
        ix += head.cos();
        iy += head.sin();
    }
    ix *= len / steps as f64;
    iy *= len / steps as f64;
    assert!((end.position.x.nanos - nanos(1.0 + ix)).abs() <= 1000);
    assert!((end.position.y.nanos - nanos(2.0 + iy)).abs() <= 1000);
    // Heading at the end integrates the full curvature ramp.
    let eh = 0.1 + k0 * len + (k1 - k0) * len / 2.0;
    assert!((end.heading.nanos - nanos(eh)).abs() <= 1000);
    // Curvature runs linearly from start to end.
    assert_eq!(c.curvature(Length::from_nanos(0)).nanos, nanos(k0));
    assert_eq!(
        c.curvature(Length::from_nanos(nanos(len))).nanos,
        nanos(k1)
    );
    let mid = c.curvature(Length::from_nanos(nanos(15.0))).nanos;
    assert!((mid - nanos((k0 + k1) / 2.0)).abs() <= 1);
}

#[test]
fn wild_spiral_reports_quadrature_caveat() {
    // A curvature swinging from -4 to 4 per meter over a hundred
    // kilometers oscillates far too fast for the capped quadrature: the
    // curve still evaluates, but carries the non-convergence caveat.
    let g = geometry(
        0.0,
        0.0,
        0.0,
        0.0,
        100000.0,
        GeometryElement::Spiral {
            curv_start: Curvature::from_nanos(nanos(-4.0)),
            curv_end: Curvature::from_nanos(nanos(4.0)),
        },
    );
    let c = evaluate(&g);
    assert!(c.caveat);
}

#[test]
fn zero_length_spiral_returns_start_pose() {
    let g = geometry(
        0.0,
        7.0,
        -3.0,
        0.5,
        0.0,
        GeometryElement::Spiral {
            curv_start: Curvature::from_nanos(nanos(0.01)),
            curv_end: Curvature::from_nanos(nanos(0.05)),
        },
    );
    let c = evaluate(&g);
    let end = c.end_pose();
    assert_eq!(end.position.x.nanos, nanos(7.0));
    assert_eq!(end.position.y.nanos, nanos(-3.0));
    assert_eq!(end.heading.nanos, nanos(0.5));
    assert!(!c.caveat);
}

#[test]
fn poly3_position_in_start_frame() {
    // A flat polynomial (only the constant offset) shifts the start
    // sideways by `a` and follows the frame direction.
    let g = geometry(
        0.0,
        0.0,
        0.0,
        0.0,
        10.0,
        GeometryElement::Poly3 { a: nanos(0.1), b: 0, c: 0, d: 0 },
    );
    let c = evaluate(&g);
    let p0 = c.position(Length::from_nanos(0));
    assert_eq!(p0.x.nanos, 0);
    assert_eq!(p0.y.nanos, nanos(0.1));
    let p1 = c.position(Length::from_nanos(nanos(10.0)));
    assert_eq!(p1.x.nanos, nanos(10.0));
    assert_eq!(p1.y.nanos, nanos(0.1));
    // A cubic term bends it: v(u) = 0.1 + 0.2 u + 0.3 u^2 + 0.4 u^3 at u = 2.
    let g2 = geometry(
        0.0,
        0.0,
        0.0,
        0.0,
        10.0,
        GeometryElement::Poly3 {
            a: nanos(0.1),
            b: nanos(0.2),
            c: nanos(0.3),
            d: nanos(0.4),
        },
    );
    let c2 = evaluate(&g2);
    let p = c2.position(Length::from_nanos(nanos(2.0)));
    let v = 0.1 + 0.2 * 2.0 + 0.3 * 4.0 + 0.4 * 8.0;
    assert!((p.y.nanos - nanos(v)).abs() <= 10);
    assert_eq!(p.x.nanos, nanos(2.0));
}
