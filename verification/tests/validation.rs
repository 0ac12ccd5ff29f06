//! Plan-view and road validation against concrete data.

use opendrive::curve::evaluate;
use opendrive::errors::ValidationError;
use opendrive::opendrive::{is_monotonic, Geometry, GeometryElement, PlanView, Road};
use opendrive::scalar::{Angle, Curvature, Length};

fn nanos(x: f64) -> i64 {
    (x * 1e9).round() as i64
}

fn geometry(s: f64, x: f64, y: f64, hdg: f64, length: f64, element: GeometryElement) -> Geometry {
    Geometry {
        s: Length::from_nanos(nanos(s)),
        x: Length::from_nanos(nanos(x)),
        y: Length::from_nanos(nanos(y)),
        hdg: Angle::from_nanos(nanos(hdg)),
        length: Length::from_nanos(nanos(length)),
        element,
    }
}

fn spiral(a: f64, b: f64) -> GeometryElement {
    GeometryElement::Spiral {
        curv_start: Curvature::from_nanos(nanos(a)),
        curv_end: Curvature::from_nanos(nanos(b)),
    }
}

fn arc(a: f64) -> GeometryElement {
    GeometryElement::Arc { curvature: Curvature::from_nanos(nanos(a)) }
}

fn road(length: f64, geometries: Vec<Geometry>) -> Road {
    Road {
        name: "test_road".to_string(),
        length: Length::from_nanos(nanos(length)),
        id: 1,
        junction: -1,
        link: None,
        plan_view: PlanView { geometries },
        elevation_profile: None,
        lateral_profile: None,
        lanes: None,
    }
}

#[test]
fn test_monotonic() {
    let x = vec![1, 2, 3, 4, 5];
    assert!(is_monotonic(&x));

    let x = vec![1, 2, 3, 4, 0];
    assert!(!is_monotonic(&x));

    let x = vec![nanos(0.0), nanos(0.1234), nanos(0.54), nanos(-0.32)];
    assert!(!is_monotonic(&x));
}

#[test]
fn test_planview() {
    let plan_view = PlanView {
        geometries: vec![
            geometry(
                0.0,
                3.1936295054484493e+01,
                -4.3587594300083827e+00,
                7.9998293398869432e-03,
                2.0721630948442136e+00,
                GeometryElement::Line,
            ),
            geometry(
                2.0721630948442136e+00,
                3.4008391843292344e+01,
                -4.3421826556979193e+00,
                7.9998293398872988e-03,
                5.7125709578755304e+00,
                spiral(-0.0, -5.9114369622925669e-02),
            ),
            geometry(
                7.7847340527197435e+00,
                3.9707082592335631e+01,
                -4.6174670591660050e+00,
                -1.6084768620939371e-01,
                6.0636650000000021e+00,
                arc(-5.9114369622925669e-02),
            ),
            geometry(
                1.3848399052719746e+01,
                4.5392930162567524e+01,
                -6.6292251856718263e+00,
                -5.1929742028899106e-01,
                5.7125709578755304e+00,
                spiral(-5.9114369622925669e-02, -0.0),
            ),
            geometry(
                1.9560970010595277e+01,
                4.9996684586531416e+01,
                -9.9991366028133708e+00,
                -6.8814493584077607e-01,
                8.9362262700839490e-01,
                GeometryElement::Line,
            ),
            geometry(
                2.0454592637603671e+01,
                5.0686941495122845e+01,
                -1.0566681138196444e+01,
                -6.8814493584075453e-01,
                6.2066121627724709e+00,
                spiral(0.0, 8.0978518504482233e-02),
            ),
            geometry(
                2.6661204800376140e+01,
                5.5779610165223573e+01,
                -1.4083929379520304e+01,
                -4.3684380690538838e-01,
                5.0000000000000014e+01,
                arc(8.0978518504482233e-02),
            ),
            geometry(
                7.6661204800376154e+01,
                5.5406167361537790e+01,
                8.1125499406994486e+00,
                -2.6711031888558949e+00,
                6.2066121627724709e+00,
                spiral(8.0978518504482233e-02, 0.0000000000000000e+00),
            ),
            geometry(
                8.2867816963148627e+01,
                5.0434698751727190e+01,
                4.4259784662547794e+00,
                -2.4198020599242533e+00,
                5.7004576686428177e+00,
                GeometryElement::Line,
            ),
            geometry(
                8.8568274631791439e+01,
                4.6155799357937703e+01,
                6.5951625221137222e-01,
                -2.4198020599242529e+00,
                1.7765358576322927e+00,
                spiral(-0.0000000000000000e+00, -5.6494314851365926e-02),
            ),
            geometry(
                9.0344810489423736e+01,
                4.4802993754335226e+01,
                -4.9169626144549478e-01,
                -2.4699841479659219e+00,
                1.0858200331373734e+01,
                arc(-5.6494314851365926e-02),
            ),
            geometry(
                1.0120301082079747e+02,
                3.4817973688592701e+01,
                -4.3059936354469119e+00,
                -3.0834107362057552e+00,
                1.7765358576322927e+00,
                spiral(-5.6494314851365926e-02, -0.0000000000000000e+00),
            ),
            geometry(
                1.0297954667842977e+02,
                3.3042179669337365e+01,
                -4.3499123530895600e+00,
                -3.1335928242499071e+00,
                1.1059200025943670e+00,
                GeometryElement::Line,
            ),
        ],
    };
    assert_eq!(plan_view.validate().unwrap(), ());
    println!("Length: {}", plan_view.sum_length().nanos);

    let g = &plan_view.geometries[0];
    let seg = g.as_segment();
    let from = seg.from();
    assert_eq!(from.x.nanos, nanos(3.1936295054484493e+01));
}

#[test]
fn monotonic_rejection_reports_first_violation() {
    let plan_view = PlanView {
        geometries: vec![
            geometry(0.0, 0.0, 0.0, 0.0, 5.0, GeometryElement::Line),
            geometry(5.0, 5.0, 0.0, 0.0, 5.0, GeometryElement::Line),
            geometry(3.0, 10.0, 0.0, 0.0, 5.0, GeometryElement::Line),
        ],
    };
    assert_eq!(
        plan_view.validate(),
        Err(ValidationError::NonMonotonicArcLength { index: 2 })
    );
}

#[test]
fn continuity_rejection_reports_gap() {
    let plan_view = PlanView {
        geometries: vec![
            geometry(0.0, 0.0, 0.0, 0.0, 10.0, GeometryElement::Line),
            geometry(10.0, 10.0, 0.001, 0.0, 5.0, GeometryElement::Line),
        ],
    };
    assert_eq!(
        plan_view.validate(),
        Err(ValidationError::DiscontinuousReferenceLine {
            index: 1,
            position_gap: Length::from_nanos(1_000_000),
            heading_gap: Angle::from_nanos(0),
        })
    );
}

#[test]
fn length_accounting() {
    let near = road(
        100.0,
        vec![geometry(0.0, 0.0, 0.0, 0.0, 99.99999, GeometryElement::Line)],
    );
    assert_eq!(near.validate(), Ok(()));

    let off = road(
        100.0,
        vec![geometry(0.0, 0.0, 0.0, 0.0, 95.0, GeometryElement::Line)],
    );
    assert_eq!(
        off.validate(),
        Err(ValidationError::LengthMismatch {
            declared: Length::from_nanos(nanos(100.0)),
            computed: Length::from_nanos(nanos(95.0)),
        })
    );
}

#[test]
fn round_trip_line_road() {
    let g = geometry(0.0, -72.0, -5.1, 0.0079, 104.0, GeometryElement::Line);
    let r = road(104.0, vec![g]);
    assert_eq!(r.validate(), Ok(()));

    let curve = evaluate(&g);
    let end = curve.end_pose();
    let expected_x = nanos(-72.0 + 104.0 * (0.0079f64).cos());
    let expected_y = nanos(-5.1 + 104.0 * (0.0079f64).sin());
    assert!((end.position.x.nanos - expected_x).abs() <= 1000);
    assert!((end.position.y.nanos - expected_y).abs() <= 1000);
    assert_eq!(end.heading.nanos, nanos(0.0079));

    let (curves, total) = r.assemble().unwrap();
    assert_eq!(curves.len(), 1);
    assert_eq!(total, Length::from_nanos(nanos(104.0)));
    assert!(!curves[0].caveat);
}

#[test]
fn empty_plan_view_needs_zero_length() {
    let zero = road(0.0, vec![]);
    assert_eq!(zero.validate(), Ok(()));

    let declared = road(1.0478122375188772e+02, vec![]);
    assert_eq!(
        declared.validate(),
        Err(ValidationError::LengthMismatch {
            declared: Length::from_nanos(nanos(1.0478122375188772e+02)),
            computed: Length::from_nanos(0),
        })
    );
}

#[test]
fn zero_length_primitive_is_legal() {
    // A zero-length record with a repeated arc-length offset is degenerate
    // but legal: it only has to match poses on both sides.
    let plan_view = PlanView {
        geometries: vec![
            geometry(0.0, 0.0, 0.0, 0.0, 5.0, GeometryElement::Line),
            geometry(5.0, 5.0, 0.0, 0.0, 0.0, GeometryElement::Line),
            geometry(5.0, 5.0, 0.0, 0.0, 3.0, GeometryElement::Line),
        ],
    };
    assert_eq!(plan_view.validate(), Ok(()));
    let r = road(8.0, plan_view.geometries);
    assert_eq!(r.validate(), Ok(()));
}

#[test]
fn scalar_arithmetic() {
    let a = Length::from_nanos(nanos(2.5));
    let b = Length::from_nanos(nanos(1.25));
    assert_eq!(a.checked_add(b), Some(Length::from_nanos(nanos(3.75))));
    assert_eq!(a.checked_sub(b), Some(Length::from_nanos(nanos(1.25))));
    assert_eq!(
        Length::from_nanos(i64::MAX).checked_add(Length::from_nanos(1)),
        None
    );
    // Scaling by the fixed-point factor 0.5.
    assert_eq!(a.scaled(nanos(0.5)), Some(Length::from_nanos(nanos(1.25))));
    let h = Angle::from_nanos(nanos(0.25));
    assert_eq!(
        h.checked_add(Angle::from_nanos(nanos(0.5))),
        Some(Angle::from_nanos(nanos(0.75)))
    );
    assert_eq!(Length::zero().nanos, 0);
    assert_eq!(Angle::zero().nanos, 0);
    assert_eq!(Curvature::zero().nanos, 0);
}

#[test]
fn heading_gap_wraps_full_turns() {
    // Two aligned lines whose headings differ by one full turn join anyway.
    let two_pi = 6.283185307179586;
    let plan_view = PlanView {
        geometries: vec![
            geometry(0.0, 0.0, 0.0, 0.0, 10.0, GeometryElement::Line),
            geometry(10.0, 10.0, 0.0, two_pi, 5.0, GeometryElement::Line),
        ],
    };
    assert_eq!(plan_view.validate(), Ok(()));
}
