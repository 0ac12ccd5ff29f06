//! Segment sampling, splitting and schema defaults.

use opendrive::clothoid::Clothoid;
use opendrive::opendrive::{
    ContactPoint, Direction, ElementType, Geometry, GeometryElement, Lane, LaneChangeType,
    LaneLink, LaneType, LinkElement, Neighbor, PlanView, RoadMarkColor, RoadMarkWeight,
};
use opendrive::scalar::{Angle, Curvature, Length, SCALE};
use opendrive::types::{LineSegment, Point2, QuadraticBezier, Segment};

fn nanos(x: f64) -> i64 {
    (x * 1e9).round() as i64
}

fn pt(x: f64, y: f64) -> Point2 {
    Point2 { x: Length::from_nanos(nanos(x)), y: Length::from_nanos(nanos(y)) }
}

fn geometry(s: f64, x: f64, y: f64, hdg: f64, length: f64, element: GeometryElement) -> Geometry {
    Geometry {
        s: Length::from_nanos(nanos(s)),
        x: Length::from_nanos(nanos(x)),
        y: Length::from_nanos(nanos(y)),
        hdg: Angle::from_nanos(nanos(hdg)),
        length: Length::from_nanos(nanos(length)),
        element,
    }
}

#[test]
fn line_segment_sampling() {
    let seg = Segment::Line(LineSegment { from: pt(1.0, 2.0), to: pt(5.0, 10.0) });
    assert_eq!(seg.from(), pt(1.0, 2.0));
    assert_eq!(seg.to(), pt(5.0, 10.0));
    assert_eq!(seg.sample(0), pt(1.0, 2.0));
    assert_eq!(seg.sample(SCALE), pt(5.0, 10.0));
    assert_eq!(seg.sample(SCALE / 2), pt(3.0, 6.0));
    assert_eq!(seg.x(SCALE / 2), Length::from_nanos(nanos(3.0)));
    assert_eq!(seg.y(SCALE / 2), Length::from_nanos(nanos(6.0)));
    let d = seg.derivative(SCALE / 4);
    assert_eq!(d, (nanos(4.0), nanos(8.0)));
    assert_eq!(seg.dx(0), nanos(4.0));
    assert_eq!(seg.dy(0), nanos(8.0));
}

#[test]
fn bezier_sampling_hits_endpoints() {
    let seg = Segment::Quadratic(QuadraticBezier {
        from: pt(0.0, 0.0),
        ctrl: pt(1.0, 2.0),
        to: pt(2.0, 0.0),
    });
    assert_eq!(seg.sample(0), pt(0.0, 0.0));
    assert_eq!(seg.sample(SCALE), pt(2.0, 0.0));
    // The quadratic midpoint is the mean of the chord and control point.
    assert_eq!(seg.sample(SCALE / 2), pt(1.0, 1.0));
}

#[test]
fn split_meets_at_sample_point() {
    let seg = Segment::Line(LineSegment { from: pt(0.0, 0.0), to: pt(8.0, 4.0) });
    let t = SCALE / 4;
    let (first, second) = seg.split(t);
    assert_eq!(first.to(), seg.sample(t));
    assert_eq!(second.from(), seg.sample(t));
    assert_eq!(first.from(), seg.from());
    assert_eq!(second.to(), seg.to());
    assert_eq!(seg.before_split(t), first);
    assert_eq!(seg.after_split(t), second);
}

#[test]
fn split_range_keeps_sampled_endpoints() {
    let seg = Segment::Line(LineSegment { from: pt(0.0, 0.0), to: pt(8.0, 4.0) });
    let part = seg.split_range(SCALE / 4, SCALE / 2);
    assert_eq!(part.from(), seg.sample(SCALE / 4));
    assert_eq!(part.to(), seg.sample(SCALE / 2));
    // The whole range gives the segment back.
    assert_eq!(seg.split_range(0, SCALE), seg);
}

#[test]
fn flip_reverses_course() {
    let seg = Segment::Line(LineSegment { from: pt(0.0, 0.0), to: pt(8.0, 4.0) });
    let back = seg.flip();
    assert_eq!(back.from(), seg.to());
    assert_eq!(back.to(), seg.from());
}

#[test]
fn approximate_length_of_line_is_exact() {
    let seg = Segment::Line(LineSegment { from: pt(0.0, 0.0), to: pt(3.0, 4.0) });
    assert_eq!(
        seg.approximate_length(Length::from_nanos(1000)),
        Length::from_nanos(nanos(5.0))
    );
}

#[test]
fn distance_between_points() {
    let a = pt(1.0, 1.0);
    let b = pt(4.0, 5.0);
    assert_eq!(a.distance_to(&b), nanos(5.0));
}

#[test]
fn arc_segment_starts_at_record_start() {
    let g = geometry(
        0.0,
        4.0,
        -2.0,
        0.3,
        10.0,
        GeometryElement::Arc { curvature: Curvature::from_nanos(nanos(-0.0591)) },
    );
    let seg = g.as_segment();
    // Each trigonometric value is good to a few 1e-9 and is scaled by the
    // radius (about 17 m here), so the endpoints agree to a fraction of
    // the 1e-6 continuity tolerance.
    let from = seg.from();
    assert!((from.x.nanos - nanos(4.0)).abs() <= 500);
    assert!((from.y.nanos - nanos(-2.0)).abs() <= 500);
    // Its far end matches the evaluated end position closely.
    let to = seg.to();
    let end = opendrive::curve::evaluate(&g).end_pose();
    assert!((to.x.nanos - end.position.x.nanos).abs() <= 500);
    assert!((to.y.nanos - end.position.y.nanos).abs() <= 500);
}

#[test]
fn poly3_segment_is_exact_cubic() {
    let g = geometry(
        0.0,
        0.0,
        0.0,
        0.0,
        10.0,
        GeometryElement::Poly3 { a: nanos(0.1), b: nanos(0.2), c: nanos(0.3), d: nanos(0.4) },
    );
    let seg = g.as_segment();
    // Endpoints: (0, a) and (L, a + bL + cL^2 + dL^3) in the start frame.
    assert_eq!(seg.from(), pt(0.0, 0.1));
    let v_end = 0.1 + 0.2 * 10.0 + 0.3 * 100.0 + 0.4 * 1000.0;
    let to = seg.to();
    assert!((to.x.nanos - nanos(10.0)).abs() <= 10);
    assert!((to.y.nanos - nanos(v_end)).abs() <= 10);
    // Sampling the Bezier midway agrees with the polynomial there.
    let mid = seg.sample(SCALE / 2);
    let v_mid = 0.1 + 0.2 * 5.0 + 0.3 * 25.0 + 0.4 * 125.0;
    assert!((mid.x.nanos - nanos(5.0)).abs() <= 10);
    assert!((mid.y.nanos - nanos(v_mid)).abs() <= 10);
}

#[test]
fn clothoid_standard_parameterization() {
    let from = pt(1.0, 2.0);
    let k0 = Curvature::from_nanos(0);
    let k1 = Curvature::from_nanos(nanos(0.08));
    let len = Length::from_nanos(nanos(6.2));
    let c = Clothoid::from_opendrive(from, k0, k1, len, Angle::from_nanos(nanos(0.1)));
    // scale = sqrt(length / |k1 - k0|), rounded down to 1e-9.
    let ratio: i128 = 1_000_000_000_000_000_000i128 * (nanos(6.2) as i128)
        / (nanos(0.08) as i128);
    let s = c.scale as i128;
    assert!(s * s <= ratio && ratio < (s + 1) * (s + 1));
    let expected = (6.2f64 / 0.08).sqrt();
    assert!((c.scale - nanos(expected)).abs() <= 2);
    // The spiral arguments are the curvatures times the scale.
    assert_eq!(c.arg_start, 0);
    assert_eq!(
        c.arg_end as i128,
        (nanos(0.08) as i128) * (c.scale as i128) / 1_000_000_000
    );
}

#[test]
fn geometry_well_formedness_check() {
    let good = geometry(0.0, 1.0, 2.0, 0.3, 10.0, GeometryElement::Line);
    assert!(good.is_well_formed());
    let bad = Geometry {
        length: Length::from_nanos(-1),
        ..geometry(0.0, 1.0, 2.0, 0.3, 10.0, GeometryElement::Line)
    };
    assert!(!bad.is_well_formed());
    let wild = geometry(
        0.0,
        1.0,
        2.0,
        0.3,
        10.0,
        GeometryElement::Arc { curvature: Curvature::from_nanos(nanos(5.0)) },
    );
    assert!(!wild.is_well_formed());
}

#[test]
fn sum_length_adds_exactly() {
    let plan_view = PlanView {
        geometries: vec![
            geometry(0.0, 0.0, 0.0, 0.0, 1.0, GeometryElement::Line),
            geometry(1.0, 1.0, 0.0, 0.0, 2.0, GeometryElement::Line),
            geometry(3.0, 3.0, 0.0, 0.0, 3.0, GeometryElement::Line),
        ],
    };
    assert_eq!(plan_view.sum_length(), Length::from_nanos(nanos(6.0)));
}

#[test]
fn schema_defaults() {
    assert_eq!(ElementType::default(), ElementType::Road);
    assert_eq!(ContactPoint::default(), ContactPoint::Start);
    assert_eq!(Direction::default(), Direction::Same);
    assert_eq!(LaneType::default(), LaneType::NoneLane);
    assert_eq!(RoadMarkWeight::default(), RoadMarkWeight::Standard);
    assert_eq!(RoadMarkColor::default(), RoadMarkColor::Standard);
    assert_eq!(LaneChangeType::default(), LaneChangeType::Both);
    assert_eq!(LaneLink::default(), LaneLink { predecessor: None, successor: None });
    assert_eq!(
        LinkElement::default(),
        LinkElement {
            element_type: ElementType::Road,
            element_id: 0,
            contact_point: ContactPoint::Start,
        }
    );
    assert_eq!(
        Neighbor::default(),
        Neighbor { side: opendrive::opendrive::Side::Left, element_id: 0, direction: Direction::Same }
    );
    let lane = Lane::default();
    assert_eq!(lane.id, 0);
    assert_eq!(lane.lane_type, LaneType::NoneLane);
    assert!(!lane.level);
    assert!(lane.link.is_none());
    assert!(lane.widths.is_empty());
    assert!(lane.road_marks.is_empty());
    assert!(PlanView::default().geometries.is_empty());
}
