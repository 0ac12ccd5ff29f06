//! Points, poses, rotations and the `Segment` curve family.
//!
//! A `Segment` is one evaluated piece of a reference line: a straight line,
//! a quadratic or cubic Bezier, or an elliptical arc.  Its sampling
//! parameter `t` runs over the unit interval in fixed point, `0..=SCALE`.

use crate::scalar::{
    iabs, isqrt_u128, lemma_mul_abs_bound, lemma_sqrt_floor_of, lemma_tdiv_bound, sqrt_floor,
    tdiv, tdiv_i128, Angle, Length, MAX_ANG, MAX_PT, MAX_SWEEP, SCALE,
};
use crate::trig::{cos_nano, sin_cos, sin_nano, MAX_TRIG_ARG};
use vstd::arithmetic::div_mod::{lemma_div_is_ordered, lemma_div_multiples_vanish,
    lemma_div_pos_is_pos};
use vstd::arithmetic::mul::{lemma_mul_nonnegative, lemma_mul_upper_bound};
use vstd::prelude::*;

verus! {

/// A point of the plane, in 1e-9 meter units per coordinate.
#[derive(Clone, Copy, Debug, PartialEq, Eq, Structural, Hash)]
pub struct Point2 {
    pub x: Length,
    pub y: Length,
}

impl Point2 {
    /// Build a point from its two coordinates.
    pub fn new(x: Length, y: Length) -> (r: Point2)
        ensures
            r.x == x,
            r.y == y,
    {
        Point2 { x, y }
    }
}

/// A sampled state of the reference line: where it is and which way it runs.
#[derive(Clone, Copy, Debug, PartialEq, Eq, Structural, Hash)]
pub struct Pose {
    pub position: Point2,
    pub heading: Angle,
}

/// A point whose coordinates stay within the computed-point range.
pub open spec fn wf_pt(p: Point2) -> bool {
    &&& -MAX_PT <= p.x.nanos <= MAX_PT
    &&& -MAX_PT <= p.y.nanos <= MAX_PT
}

/// Linear interpolation `a + (b - a) * t / SCALE`, truncated toward zero.
pub open spec fn lerp(a: int, b: int, t: int) -> int {
    a + tdiv((b - a) * t, SCALE as int)
}

/// For `t` in the unit interval the interpolant stays between its ends.
pub proof fn lemma_lerp_range(a: int, b: int, t: int)
    requires
        0 <= t <= SCALE,
    ensures
        a <= b ==> a <= lerp(a, b, t) <= b,
        b <= a ==> b <= lerp(a, b, t) <= a,
{
    let d = b - a;
    if d >= 0 {
        lemma_mul_nonnegative(d, t);
        lemma_div_pos_is_pos(d * t, SCALE as int);
        lemma_mul_upper_bound(d, d, t, SCALE as int);
        lemma_div_is_ordered(d * t, d * SCALE, SCALE as int);
        lemma_div_multiples_vanish(d, SCALE as int);
        assert(d * SCALE == SCALE * d) by (nonlinear_arith);
    } else {
        lemma_mul_nonnegative(-d, t);
        lemma_div_pos_is_pos((-d) * t, SCALE as int);
        lemma_mul_upper_bound(-d, -d, t, SCALE as int);
        lemma_div_is_ordered((-d) * t, (-d) * SCALE, SCALE as int);
        lemma_div_multiples_vanish(-d, SCALE as int);
        assert((-d) * SCALE == SCALE * (-d)) by (nonlinear_arith);
        assert((-d) * t == -(d * t)) by (nonlinear_arith);
    }
}

/// Executable interpolation between two coordinates.
pub fn lerp_exec(a: i64, b: i64, t: i64) -> (r: i64)
    requires
        -2 * MAX_PT <= a <= 2 * MAX_PT,
        -2 * MAX_PT <= b <= 2 * MAX_PT,
        0 <= t <= SCALE,
    ensures
        r == lerp(a as int, b as int, t as int),
        a <= b ==> a <= r <= b,
        b <= a ==> b <= r <= a,
{
    proof {
        lemma_lerp_range(a as int, b as int, t as int);
        lemma_mul_abs_bound((b - a) as int, t as int, 4 * MAX_PT as int, SCALE as int);
    }
    let d: i128 = (b as i128) - (a as i128);
    let q: i128 = tdiv_i128(d * (t as i128), SCALE as i128);
    (a as i128 + q) as i64
}

/// Horizontal component of rotating the vector `(u, v)` by the rotation
/// whose cosine and sine are `c` and `s` (all fixed point).
pub open spec fn rot_x(c: int, s: int, u: int, v: int) -> int {
    tdiv(c * u - s * v, SCALE as int)
}

/// Vertical component of the same rotation.
pub open spec fn rot_y(c: int, s: int, u: int, v: int) -> int {
    tdiv(s * u + c * v, SCALE as int)
}

/// Executable rotation of a vector, with the bounds the callers need.
pub fn rotate_vec(c: i64, s: i64, u: i64, v: i64) -> (r: (i64, i64))
    requires
        -SCALE <= c <= SCALE,
        -SCALE <= s <= SCALE,
        -4 * MAX_PT <= u <= 4 * MAX_PT,
        -4 * MAX_PT <= v <= 4 * MAX_PT,
    ensures
        r.0 == rot_x(c as int, s as int, u as int, v as int),
        r.1 == rot_y(c as int, s as int, u as int, v as int),
        iabs(r.0 as int) <= iabs(u as int) + iabs(v as int),
        iabs(r.1 as int) <= iabs(u as int) + iabs(v as int),
{
    proof {
        lemma_mul_abs_bound(c as int, u as int, SCALE as int, iabs(u as int));
        lemma_mul_abs_bound(s as int, v as int, SCALE as int, iabs(v as int));
        lemma_mul_abs_bound(s as int, u as int, SCALE as int, iabs(u as int));
        lemma_mul_abs_bound(c as int, v as int, SCALE as int, iabs(v as int));
        lemma_tdiv_bound(c as int * u - s as int * v, SCALE as int,
            SCALE * (iabs(u as int) + iabs(v as int)));
        lemma_tdiv_bound(s as int * u + c as int * v, SCALE as int,
            SCALE * (iabs(u as int) + iabs(v as int)));
        lemma_div_multiples_vanish(iabs(u as int) + iabs(v as int), SCALE as int);
    }
    let cw: i128 = c as i128;
    let sw: i128 = s as i128;
    let uw: i128 = u as i128;
    let vw: i128 = v as i128;
    let x: i128 = tdiv_i128(cw * uw - sw * vw, SCALE as i128);
    let y: i128 = tdiv_i128(sw * uw + cw * vw, SCALE as i128);
    (x as i64, y as i64)
}

/// A rotation of the plane, held as the fixed-point cosine and sine of its
/// angle.
#[derive(Clone, Copy, Debug, PartialEq, Eq, Structural, Hash)]
pub struct Rotation {
    pub cos: i64,
    pub sin: i64,
}

impl Rotation {
    /// The rotation by the given angle.
    pub fn new(a: Angle) -> (r: Rotation)
        requires
            -MAX_TRIG_ARG <= a.nanos <= MAX_TRIG_ARG,
        ensures
            r.cos == cos_nano(a.nanos as int),
            r.sin == sin_nano(a.nanos as int),
            -SCALE <= r.cos <= SCALE,
            -SCALE <= r.sin <= SCALE,
    {
        let cs: (i64, i64) = sin_cos(a.nanos);
        Rotation { cos: cs.0, sin: cs.1 }
    }

    /// Rotate a vector given by its two components.
    pub fn transform_vector(&self, u: i64, v: i64) -> (r: (i64, i64))
        requires
            -SCALE <= self.cos <= SCALE,
            -SCALE <= self.sin <= SCALE,
            -4 * MAX_PT <= u <= 4 * MAX_PT,
            -4 * MAX_PT <= v <= 4 * MAX_PT,
        ensures
            r.0 == rot_x(self.cos as int, self.sin as int, u as int, v as int),
            r.1 == rot_y(self.cos as int, self.sin as int, u as int, v as int),
            iabs(r.0 as int) <= iabs(u as int) + iabs(v as int),
            iabs(r.1 as int) <= iabs(u as int) + iabs(v as int),
    {
        rotate_vec(self.cos, self.sin, u, v)
    }

    /// Rotate a point about the origin.
    pub fn transform_point(&self, p: Point2) -> (r: (i64, i64))
        requires
            -SCALE <= self.cos <= SCALE,
            -SCALE <= self.sin <= SCALE,
            -4 * MAX_PT <= p.x.nanos <= 4 * MAX_PT,
            -4 * MAX_PT <= p.y.nanos <= 4 * MAX_PT,
        ensures
            r.0 == rot_x(self.cos as int, self.sin as int, p.x.nanos as int, p.y.nanos as int),
            r.1 == rot_y(self.cos as int, self.sin as int, p.x.nanos as int, p.y.nanos as int),
            iabs(r.0 as int) <= iabs(p.x.nanos as int) + iabs(p.y.nanos as int),
            iabs(r.1 as int) <= iabs(p.x.nanos as int) + iabs(p.y.nanos as int),
    {
        rotate_vec(self.cos, self.sin, p.x.nanos, p.y.nanos)
    }
}

/// A straight segment between two points.
#[derive(Clone, Copy, Debug, PartialEq, Eq, Structural, Hash)]
pub struct LineSegment {
    pub from: Point2,
    pub to: Point2,
}

/// A quadratic Bezier segment.
#[derive(Clone, Copy, Debug, PartialEq, Eq, Structural, Hash)]
pub struct QuadraticBezier {
    pub from: Point2,
    pub ctrl: Point2,
    pub to: Point2,
}

/// A cubic Bezier segment.
#[derive(Clone, Copy, Debug, PartialEq, Eq, Structural, Hash)]
pub struct CubicBezier {
    pub from: Point2,
    pub ctrl1: Point2,
    pub ctrl2: Point2,
    pub to: Point2,
}

/// An elliptical arc, parameterized as in the usual vector-graphics form:
/// the ellipse's axes are rotated by `x_rotation`, and the traced angle runs
/// from `start_angle` through `sweep_angle`.
#[derive(Clone, Copy, Debug, PartialEq, Eq, Structural, Hash)]
pub struct ArcSegment {
    pub center: Point2,
    pub rx: Length,
    pub ry: Length,
    pub start_angle: Angle,
    pub sweep_angle: Angle,
    pub x_rotation: Angle,
}

/// One evaluated piece of a reference line.
#[derive(Clone, Copy, Debug, PartialEq, Eq, Structural, Hash)]
pub enum Segment {
    Line(LineSegment),
    Quadratic(QuadraticBezier),
    Cubic(CubicBezier),
    Arc(ArcSegment),
}

/// Well-formedness of each segment kind: coordinates within the computed
/// range, angles within the ranges the trigonometry accepts.
pub open spec fn wf_seg(s: Segment) -> bool {
    match s {
        Segment::Line(l) => wf_pt(l.from) && wf_pt(l.to),
        Segment::Quadratic(q) => wf_pt(q.from) && wf_pt(q.ctrl) && wf_pt(q.to),
        Segment::Cubic(c) => wf_pt(c.from) && wf_pt(c.ctrl1) && wf_pt(c.ctrl2) && wf_pt(c.to),
        Segment::Arc(a) => {
            &&& wf_pt(a.center)
            &&& -MAX_PT <= a.rx.nanos <= MAX_PT
            &&& -MAX_PT <= a.ry.nanos <= MAX_PT
            &&& -MAX_SWEEP <= a.start_angle.nanos <= MAX_SWEEP
            &&& -MAX_SWEEP <= a.start_angle.nanos + a.sweep_angle.nanos <= MAX_SWEEP
            &&& -MAX_ANG <= a.x_rotation.nanos <= MAX_ANG
        },
    }
}

/// The ellipse angle reached after a fraction `t` of the sweep: the
/// interpolant between the start and end angles.
pub open spec fn arc_angle(a: ArcSegment, t: int) -> int {
    lerp(a.start_angle.nanos as int, a.start_angle.nanos + a.sweep_angle.nanos, t)
}

/// The point of the arc at a given ellipse angle.
pub open spec fn arc_point(a: ArcSegment, ang: int) -> (int, int) {
    let ex = tdiv(a.rx.nanos * cos_nano(ang), SCALE as int);
    let ey = tdiv(a.ry.nanos * sin_nano(ang), SCALE as int);
    let xc = cos_nano(a.x_rotation.nanos as int);
    let xs = sin_nano(a.x_rotation.nanos as int);
    (a.center.x.nanos + rot_x(xc, xs, ex, ey), a.center.y.nanos + rot_y(xc, xs, ex, ey))
}

/// Where a segment is after a fraction `t` (fixed point, `0..=SCALE`) of
/// its course: straight interpolation for lines, de Casteljau interpolation
/// for the Bezier kinds, the angle sweep for arcs.
pub open spec fn seg_sample(s: Segment, t: int) -> (int, int) {
    match s {
        Segment::Line(l) => (
            lerp(l.from.x.nanos as int, l.to.x.nanos as int, t),
            lerp(l.from.y.nanos as int, l.to.y.nanos as int, t),
        ),
        Segment::Quadratic(q) => {
            let ax = lerp(q.from.x.nanos as int, q.ctrl.x.nanos as int, t);
            let ay = lerp(q.from.y.nanos as int, q.ctrl.y.nanos as int, t);
            let bx = lerp(q.ctrl.x.nanos as int, q.to.x.nanos as int, t);
            let by = lerp(q.ctrl.y.nanos as int, q.to.y.nanos as int, t);
            (lerp(ax, bx, t), lerp(ay, by, t))
        },
        Segment::Cubic(c) => {
            let ax = lerp(c.from.x.nanos as int, c.ctrl1.x.nanos as int, t);
            let ay = lerp(c.from.y.nanos as int, c.ctrl1.y.nanos as int, t);
            let bx = lerp(c.ctrl1.x.nanos as int, c.ctrl2.x.nanos as int, t);
            let by = lerp(c.ctrl1.y.nanos as int, c.ctrl2.y.nanos as int, t);
            let cx = lerp(c.ctrl2.x.nanos as int, c.to.x.nanos as int, t);
            let cy = lerp(c.ctrl2.y.nanos as int, c.to.y.nanos as int, t);
            let abx = lerp(ax, bx, t);
            let aby = lerp(ay, by, t);
            let bcx = lerp(bx, cx, t);
            let bcy = lerp(by, cy, t);
            (lerp(abx, bcx, t), lerp(aby, bcy, t))
        },
        Segment::Arc(a) => arc_point(a, arc_angle(a, t)),
    }
}

/// The point a segment starts at.
pub open spec fn seg_from(s: Segment) -> (int, int) {
    match s {
        Segment::Line(l) => (l.from.x.nanos as int, l.from.y.nanos as int),
        Segment::Quadratic(q) => (q.from.x.nanos as int, q.from.y.nanos as int),
        Segment::Cubic(c) => (c.from.x.nanos as int, c.from.y.nanos as int),
        Segment::Arc(a) => arc_point(a, a.start_angle.nanos as int),
    }
}

/// The point a segment ends at.
pub open spec fn seg_to(s: Segment) -> (int, int) {
    match s {
        Segment::Line(l) => (l.to.x.nanos as int, l.to.y.nanos as int),
        Segment::Quadratic(q) => (q.to.x.nanos as int, q.to.y.nanos as int),
        Segment::Cubic(c) => (c.to.x.nanos as int, c.to.y.nanos as int),
        Segment::Arc(a) => arc_point(a,
            a.start_angle.nanos + a.sweep_angle.nanos),
    }
}

/// The point of an arc at a given ellipse angle, executable.
fn arc_point_exec(a: &ArcSegment, ang: i64) -> (r: Point2)
    requires
        wf_seg(Segment::Arc(*a)),
        -MAX_TRIG_ARG <= ang <= MAX_TRIG_ARG,
    ensures
        (r.x.nanos as int, r.y.nanos as int) == arc_point(*a, ang as int),
        iabs(r.x.nanos as int) <= 3 * MAX_PT,
        iabs(r.y.nanos as int) <= 3 * MAX_PT,
{
    let cs: (i64, i64) = sin_cos(ang);
    proof {
        lemma_mul_abs_bound(a.rx.nanos as int, cs.0 as int, MAX_PT as int, SCALE as int);
        lemma_mul_abs_bound(a.ry.nanos as int, cs.1 as int, MAX_PT as int, SCALE as int);
        lemma_tdiv_bound(a.rx.nanos as int * cs.0, SCALE as int, MAX_PT * SCALE as int);
        lemma_tdiv_bound(a.ry.nanos as int * cs.1, SCALE as int, MAX_PT * SCALE as int);
        lemma_div_multiples_vanish(MAX_PT as int, SCALE as int);
    }
    let ex: i64 = tdiv_i128((a.rx.nanos as i128) * (cs.0 as i128), SCALE as i128) as i64;
    let ey: i64 = tdiv_i128((a.ry.nanos as i128) * (cs.1 as i128), SCALE as i128) as i64;
    let rot: Rotation = Rotation::new(a.x_rotation);
    let w: (i64, i64) = rot.transform_vector(ex, ey);
    Point2 {
        x: Length { nanos: a.center.x.nanos + w.0 },
        y: Length { nanos: a.center.y.nanos + w.1 },
    }
}

impl Segment {
    /// The starting point.
    pub fn from(&self) -> (r: Point2)
        requires
            wf_seg(*self),
        ensures
            (r.x.nanos as int, r.y.nanos as int) == seg_from(*self),
            iabs(r.x.nanos as int) <= 3 * MAX_PT,
            iabs(r.y.nanos as int) <= 3 * MAX_PT,
    {
        match self {
            Segment::Line(l) => l.from,
            Segment::Quadratic(q) => q.from,
            Segment::Cubic(c) => c.from,
            Segment::Arc(a) => arc_point_exec(a, a.start_angle.nanos),
        }
    }

    /// The ending point.
    pub fn to(&self) -> (r: Point2)
        requires
            wf_seg(*self),
        ensures
            (r.x.nanos as int, r.y.nanos as int) == seg_to(*self),
            iabs(r.x.nanos as int) <= 3 * MAX_PT,
            iabs(r.y.nanos as int) <= 3 * MAX_PT,
    {
        match self {
            Segment::Line(l) => l.to,
            Segment::Quadratic(q) => q.to,
            Segment::Cubic(c) => c.to,
            Segment::Arc(a) => arc_point_exec(a, a.start_angle.nanos + a.sweep_angle.nanos),
        }
    }

    /// The point after a fraction `t` (fixed point, `0..=SCALE`) of the
    /// segment's course.
    pub fn sample(&self, t: i64) -> (r: Point2)
        requires
            wf_seg(*self),
            0 <= t <= SCALE,
        ensures
            (r.x.nanos as int, r.y.nanos as int) == seg_sample(*self, t as int),
            iabs(r.x.nanos as int) <= 3 * MAX_PT,
            iabs(r.y.nanos as int) <= 3 * MAX_PT,
    {
        match self {
            Segment::Line(l) => Point2 {
                x: Length { nanos: lerp_exec(l.from.x.nanos, l.to.x.nanos, t) },
                y: Length { nanos: lerp_exec(l.from.y.nanos, l.to.y.nanos, t) },
            },
            Segment::Quadratic(q) => {
                let ax: i64 = lerp_exec(q.from.x.nanos, q.ctrl.x.nanos, t);
                let ay: i64 = lerp_exec(q.from.y.nanos, q.ctrl.y.nanos, t);
                let bx: i64 = lerp_exec(q.ctrl.x.nanos, q.to.x.nanos, t);
                let by: i64 = lerp_exec(q.ctrl.y.nanos, q.to.y.nanos, t);
                Point2 {
                    x: Length { nanos: lerp_exec(ax, bx, t) },
                    y: Length { nanos: lerp_exec(ay, by, t) },
                }
            },
            Segment::Cubic(c) => {
                let ax: i64 = lerp_exec(c.from.x.nanos, c.ctrl1.x.nanos, t);
                let ay: i64 = lerp_exec(c.from.y.nanos, c.ctrl1.y.nanos, t);
                let bx: i64 = lerp_exec(c.ctrl1.x.nanos, c.ctrl2.x.nanos, t);
                let by: i64 = lerp_exec(c.ctrl1.y.nanos, c.ctrl2.y.nanos, t);
                let cx: i64 = lerp_exec(c.ctrl2.x.nanos, c.to.x.nanos, t);
                let cy: i64 = lerp_exec(c.ctrl2.y.nanos, c.to.y.nanos, t);
                let abx: i64 = lerp_exec(ax, bx, t);
                let aby: i64 = lerp_exec(ay, by, t);
                let bcx: i64 = lerp_exec(bx, cx, t);
                let bcy: i64 = lerp_exec(by, cy, t);
                Point2 {
                    x: Length { nanos: lerp_exec(abx, bcx, t) },
                    y: Length { nanos: lerp_exec(aby, bcy, t) },
                }
            },
            Segment::Arc(a) => {
                proof {
                    lemma_lerp_range(a.start_angle.nanos as int,
                        a.start_angle.nanos + a.sweep_angle.nanos, t as int);
                    lemma_mul_abs_bound(a.sweep_angle.nanos as int, t as int,
                        2 * MAX_SWEEP as int, SCALE as int);
                    lemma_tdiv_bound(a.sweep_angle.nanos as int * t, SCALE as int,
                        2 * MAX_SWEEP * SCALE as int);
                    lemma_div_multiples_vanish(2 * MAX_SWEEP as int, SCALE as int);
                }
                let off: i64 = tdiv_i128((a.sweep_angle.nanos as i128) * (t as i128),
                    SCALE as i128) as i64;
                arc_point_exec(a, a.start_angle.nanos + off)
            },
        }
    }

    /// The horizontal coordinate after a fraction `t` of the course.
    pub fn x(&self, t: i64) -> (r: Length)
        requires
            wf_seg(*self),
            0 <= t <= SCALE,
        ensures
            r.nanos as int == seg_sample(*self, t as int).0,
    {
        self.sample(t).x
    }

    /// The vertical coordinate after a fraction `t` of the course.
    pub fn y(&self, t: i64) -> (r: Length)
        requires
            wf_seg(*self),
            0 <= t <= SCALE,
        ensures
            r.nanos as int == seg_sample(*self, t as int).1,
    {
        self.sample(t).y
    }
}

/// A point built in spec code from two coordinate values.
pub open spec fn spec_pt(x: int, y: int) -> Point2 {
    Point2 { x: Length { nanos: x as i64 }, y: Length { nanos: y as i64 } }
}

/// The derivative of the segment's point with respect to `t`, in 1e-9
/// meter per unit of `t` (not normalized to arc length).
pub open spec fn seg_derivative(s: Segment, t: int) -> (int, int) {
    match s {
        Segment::Line(l) => (
            l.to.x.nanos - l.from.x.nanos,
            l.to.y.nanos - l.from.y.nanos,
        ),
        Segment::Quadratic(q) => (
            2 * lerp(q.ctrl.x.nanos - q.from.x.nanos, q.to.x.nanos - q.ctrl.x.nanos, t),
            2 * lerp(q.ctrl.y.nanos - q.from.y.nanos, q.to.y.nanos - q.ctrl.y.nanos, t),
        ),
        Segment::Cubic(c) => {
            let ax = lerp(c.ctrl1.x.nanos - c.from.x.nanos, c.ctrl2.x.nanos - c.ctrl1.x.nanos, t);
            let ay = lerp(c.ctrl1.y.nanos - c.from.y.nanos, c.ctrl2.y.nanos - c.ctrl1.y.nanos, t);
            let bx = lerp(c.ctrl2.x.nanos - c.ctrl1.x.nanos, c.to.x.nanos - c.ctrl2.x.nanos, t);
            let by = lerp(c.ctrl2.y.nanos - c.ctrl1.y.nanos, c.to.y.nanos - c.ctrl2.y.nanos, t);
            (3 * lerp(ax, bx, t), 3 * lerp(ay, by, t))
        },
        Segment::Arc(a) => {
            let ang = arc_angle(a, t);
            let mx = tdiv(a.rx.nanos * a.sweep_angle.nanos, SCALE as int);
            let my = tdiv(a.ry.nanos * a.sweep_angle.nanos, SCALE as int);
            let ex = -tdiv(mx * sin_nano(ang), SCALE as int);
            let ey = tdiv(my * cos_nano(ang), SCALE as int);
            let xc = cos_nano(a.x_rotation.nanos as int);
            let xs = sin_nano(a.x_rotation.nanos as int);
            (rot_x(xc, xs, ex, ey), rot_y(xc, xs, ex, ey))
        },
    }
}

/// An arc whose radius-sweep products stay small enough that its
/// derivative and its length fit the coordinate range; the other kinds
/// need nothing.
pub open spec fn wf_moderate(s: Segment) -> bool {
    match s {
        Segment::Arc(a) => {
            &&& iabs(a.rx.nanos * a.sweep_angle.nanos) <= MAX_PT * SCALE
            &&& iabs(a.ry.nanos * a.sweep_angle.nanos) <= MAX_PT * SCALE
        },
        _ => true,
    }
}

/// The two halves of a segment split at fraction `t`, field by field.
pub open spec fn seg_split(s: Segment, t: int) -> (Segment, Segment) {
    match s {
        Segment::Line(l) => {
            let m = spec_pt(seg_sample(s, t).0, seg_sample(s, t).1);
            (
                Segment::Line(LineSegment { from: l.from, to: m }),
                Segment::Line(LineSegment { from: m, to: l.to }),
            )
        },
        Segment::Quadratic(q) => {
            let a = spec_pt(
                lerp(q.from.x.nanos as int, q.ctrl.x.nanos as int, t),
                lerp(q.from.y.nanos as int, q.ctrl.y.nanos as int, t),
            );
            let b = spec_pt(
                lerp(q.ctrl.x.nanos as int, q.to.x.nanos as int, t),
                lerp(q.ctrl.y.nanos as int, q.to.y.nanos as int, t),
            );
            let m = spec_pt(seg_sample(s, t).0, seg_sample(s, t).1);
            (
                Segment::Quadratic(QuadraticBezier { from: q.from, ctrl: a, to: m }),
                Segment::Quadratic(QuadraticBezier { from: m, ctrl: b, to: q.to }),
            )
        },
        Segment::Cubic(c) => {
            let ax = lerp(c.from.x.nanos as int, c.ctrl1.x.nanos as int, t);
            let ay = lerp(c.from.y.nanos as int, c.ctrl1.y.nanos as int, t);
            let bx = lerp(c.ctrl1.x.nanos as int, c.ctrl2.x.nanos as int, t);
            let by = lerp(c.ctrl1.y.nanos as int, c.ctrl2.y.nanos as int, t);
            let cx = lerp(c.ctrl2.x.nanos as int, c.to.x.nanos as int, t);
            let cy = lerp(c.ctrl2.y.nanos as int, c.to.y.nanos as int, t);
            let abx = lerp(ax, bx, t);
            let aby = lerp(ay, by, t);
            let bcx = lerp(bx, cx, t);
            let bcy = lerp(by, cy, t);
            let m = spec_pt(seg_sample(s, t).0, seg_sample(s, t).1);
            (
                Segment::Cubic(CubicBezier {
                    from: c.from,
                    ctrl1: spec_pt(ax, ay),
                    ctrl2: spec_pt(abx, aby),
                    to: m,
                }),
                Segment::Cubic(CubicBezier {
                    from: m,
                    ctrl1: spec_pt(bcx, bcy),
                    ctrl2: spec_pt(cx, cy),
                    to: c.to,
                }),
            )
        },
        Segment::Arc(a) => {
            let mid = arc_angle(a, t);
            (
                Segment::Arc(ArcSegment {
                    center: a.center,
                    rx: a.rx,
                    ry: a.ry,
                    start_angle: a.start_angle,
                    sweep_angle: Angle { nanos: (mid - a.start_angle.nanos) as i64 },
                    x_rotation: a.x_rotation,
                }),
                Segment::Arc(ArcSegment {
                    center: a.center,
                    rx: a.rx,
                    ry: a.ry,
                    start_angle: Angle { nanos: mid as i64 },
                    sweep_angle: Angle {
                        nanos: (a.start_angle.nanos + a.sweep_angle.nanos - mid) as i64,
                    },
                    x_rotation: a.x_rotation,
                }),
            )
        },
    }
}

/// The piece of a segment between fractions `t0` and `t1` of its course:
/// resampled endpoints for a line, the angle range for an arc, and two
/// chained splits for the Bezier kinds (the second split point rescaled to
/// the remainder left by the first).
pub open spec fn seg_split_range(s: Segment, t0: int, t1: int) -> Segment {
    match s {
        Segment::Line(l) => Segment::Line(LineSegment {
            from: spec_pt(seg_sample(s, t0).0, seg_sample(s, t0).1),
            to: spec_pt(seg_sample(s, t1).0, seg_sample(s, t1).1),
        }),
        Segment::Quadratic(q) => {
            let rest = seg_split(s, t0).1;
            let t2 = if t0 == SCALE {
                0
            } else {
                tdiv((t1 - t0) * SCALE, SCALE - t0)
            };
            seg_split(rest, t2).0
        },
        Segment::Cubic(c) => {
            let rest = seg_split(s, t0).1;
            let t2 = if t0 == SCALE {
                0
            } else {
                tdiv((t1 - t0) * SCALE, SCALE - t0)
            };
            seg_split(rest, t2).0
        },
        Segment::Arc(a) => Segment::Arc(ArcSegment {
            center: a.center,
            rx: a.rx,
            ry: a.ry,
            start_angle: Angle { nanos: arc_angle(a, t0) as i64 },
            sweep_angle: Angle { nanos: (arc_angle(a, t1) - arc_angle(a, t0)) as i64 },
            x_rotation: a.x_rotation,
        }),
    }
}

/// The rescaled split point of the second cut stays within the unit range.
proof fn lemma_rescaled_cut(t0: int, t1: int)
    requires
        0 <= t0 <= t1 <= SCALE,
        t0 < SCALE,
    ensures
        0 <= tdiv((t1 - t0) * SCALE, SCALE - t0) <= SCALE,
{
    lemma_mul_nonnegative(t1 - t0, SCALE as int);
    lemma_div_pos_is_pos((t1 - t0) * SCALE, SCALE - t0);
    vstd::arithmetic::mul::lemma_mul_inequality(t1 - t0, SCALE - t0, SCALE as int);
    lemma_div_is_ordered((t1 - t0) * SCALE, (SCALE - t0) * SCALE, SCALE - t0);
    lemma_div_multiples_vanish(SCALE as int, SCALE - t0);
    assert((SCALE - t0) * SCALE == SCALE * (SCALE - t0)) by (nonlinear_arith);
}

/// The second split point of a range cut, rescaled to the remainder that
/// the first cut leaves, executable.
fn rescaled_cut(t0: i64, t1: i64) -> (t2: i64)
    requires
        0 <= t0 <= t1 <= SCALE,
    ensures
        t2 == if t0 == SCALE {
            0int
        } else {
            tdiv((t1 - t0) * SCALE, SCALE - t0)
        },
        0 <= t2 <= SCALE,
{
    if t0 == SCALE {
        0
    } else {
        proof {
            lemma_rescaled_cut(t0 as int, t1 as int);
        }
        tdiv_i128(((t1 - t0) as i128) * (SCALE as i128), (SCALE - t0) as i128) as i64
    }
}

/// The same segment run backwards.
pub open spec fn seg_flip(s: Segment) -> Segment {
    match s {
        Segment::Line(l) => Segment::Line(LineSegment { from: l.to, to: l.from }),
        Segment::Quadratic(q) => Segment::Quadratic(QuadraticBezier {
            from: q.to,
            ctrl: q.ctrl,
            to: q.from,
        }),
        Segment::Cubic(c) => Segment::Cubic(CubicBezier {
            from: c.to,
            ctrl1: c.ctrl2,
            ctrl2: c.ctrl1,
            to: c.from,
        }),
        Segment::Arc(a) => Segment::Arc(ArcSegment {
            center: a.center,
            rx: a.rx,
            ry: a.ry,
            start_angle: Angle { nanos: (a.start_angle.nanos + a.sweep_angle.nanos) as i64 },
            sweep_angle: Angle { nanos: (-a.sweep_angle.nanos) as i64 },
            x_rotation: a.x_rotation,
        }),
    }
}

/// The squared straight-line distance between two points.
pub open spec fn dist_sq(p: Point2, q: Point2) -> int {
    (q.x.nanos - p.x.nanos) * (q.x.nanos - p.x.nanos) + (q.y.nanos - p.y.nanos) * (q.y.nanos
        - p.y.nanos)
}

/// The straight-line distance between two points, rounded down to whole
/// 1e-9 meter units.
pub open spec fn dist(p: Point2, q: Point2) -> int {
    sqrt_floor(dist_sq(p, q))
}

impl Point2 {
    /// The straight-line distance to another point, rounded down to whole
    /// 1e-9 meter units.
    pub fn distance_to(&self, other: &Point2) -> (r: i64)
        requires
            iabs(self.x.nanos as int) <= 3_000_000_000_000_000_000,
            iabs(self.y.nanos as int) <= 3_000_000_000_000_000_000,
            iabs(other.x.nanos as int) <= 3_000_000_000_000_000_000,
            iabs(other.y.nanos as int) <= 3_000_000_000_000_000_000,
        ensures
            0 <= r,
            r == dist(*self, *other),
            r * r <= dist_sq(*self, *other) < (r + 1) * (r + 1),
    {
        let dx: i128 = (other.x.nanos as i128) - (self.x.nanos as i128);
        let dy: i128 = (other.y.nanos as i128) - (self.y.nanos as i128);
        proof {
            lemma_mul_abs_bound(dx as int, dx as int, 6_000_000_000_000_000_000,
                6_000_000_000_000_000_000);
            lemma_mul_abs_bound(dy as int, dy as int, 6_000_000_000_000_000_000,
                6_000_000_000_000_000_000);
            lemma_square_nonneg(dx as int);
            lemma_square_nonneg(dy as int);
        }
        let sq: u128 = ((dx * dx) as u128) + ((dy * dy) as u128);
        let root: u128 = isqrt_u128(sq);
        proof {
            lemma_sqrt_floor_of(dist_sq(*self, *other), root as int);
        }
        proof {
            assert(root as int * (root as int) <= 72_000_000_000_000_000_000_000_000_000_000_000_000int);
            assert(root <= 9_000_000_000_000_000_000u128) by (nonlinear_arith)
                requires
                    root as int * (root as int)
                        <= 72_000_000_000_000_000_000_000_000_000_000_000_000int,
            ;
        }
        root as i64
    }
}

/// A square is never negative.
proof fn lemma_square_nonneg(x: int)
    by (nonlinear_arith)
    ensures
        0 <= x * x,
{
}

/// A distance between two points of the computed range fits comfortably
/// in the coordinate type, with room for sums of a few of them.
proof fn lemma_dist_small(r: int, p: Point2, q: Point2)
    requires
        wf_pt(p),
        wf_pt(q),
        0 <= r,
        r * r <= (q.x.nanos - p.x.nanos) * (q.x.nanos - p.x.nanos) + (q.y.nanos - p.y.nanos) * (
        q.y.nanos - p.y.nanos),
    ensures
        r <= 1_450_000_000_000_000_000,
{
    let dx = q.x.nanos - p.x.nanos;
    let dy = q.y.nanos - p.y.nanos;
    assert(r <= 1_450_000_000_000_000_000) by (nonlinear_arith)
        requires
            0 <= r,
            r * r <= dx * dx + dy * dy,
            -1_000_000_000_000_000_000 <= dx <= 1_000_000_000_000_000_000,
            -1_000_000_000_000_000_000 <= dy <= 1_000_000_000_000_000_000,
    ;
}

impl Segment {
    /// The derivative with respect to the unit parameter, in 1e-9 meter
    /// units per unit of `t`.
    pub fn derivative(&self, t: i64) -> (r: (i64, i64))
        requires
            wf_seg(*self),
            wf_moderate(*self),
            0 <= t <= SCALE,
        ensures
            (r.0 as int, r.1 as int) == seg_derivative(*self, t as int),
    {
        match self {
            Segment::Line(l) => (l.to.x.nanos - l.from.x.nanos, l.to.y.nanos - l.from.y.nanos),
            Segment::Quadratic(q) => {
                let dx: i64 = lerp_exec(q.ctrl.x.nanos - q.from.x.nanos,
                    q.to.x.nanos - q.ctrl.x.nanos, t);
                let dy: i64 = lerp_exec(q.ctrl.y.nanos - q.from.y.nanos,
                    q.to.y.nanos - q.ctrl.y.nanos, t);
                (2 * dx, 2 * dy)
            },
            Segment::Cubic(c) => {
                let ax: i64 = lerp_exec(c.ctrl1.x.nanos - c.from.x.nanos,
                    c.ctrl2.x.nanos - c.ctrl1.x.nanos, t);
                let ay: i64 = lerp_exec(c.ctrl1.y.nanos - c.from.y.nanos,
                    c.ctrl2.y.nanos - c.ctrl1.y.nanos, t);
                let bx: i64 = lerp_exec(c.ctrl2.x.nanos - c.ctrl1.x.nanos,
                    c.to.x.nanos - c.ctrl2.x.nanos, t);
                let by: i64 = lerp_exec(c.ctrl2.y.nanos - c.ctrl1.y.nanos,
                    c.to.y.nanos - c.ctrl2.y.nanos, t);
                (3 * lerp_exec(ax, bx, t), 3 * lerp_exec(ay, by, t))
            },
            Segment::Arc(a) => {
                proof {
                    lemma_lerp_range(a.start_angle.nanos as int,
                        a.start_angle.nanos + a.sweep_angle.nanos, t as int);
                    lemma_mul_abs_bound(a.sweep_angle.nanos as int, t as int,
                        2 * MAX_SWEEP as int, SCALE as int);
                    lemma_tdiv_bound(a.sweep_angle.nanos as int * t, SCALE as int,
                        2 * MAX_SWEEP * SCALE as int);
                    lemma_tdiv_bound(a.rx.nanos as int * a.sweep_angle.nanos, SCALE as int,
                        MAX_PT * SCALE as int);
                    lemma_tdiv_bound(a.ry.nanos as int * a.sweep_angle.nanos, SCALE as int,
                        MAX_PT * SCALE as int);
                }
                let off: i64 = tdiv_i128((a.sweep_angle.nanos as i128) * (t as i128),
                    SCALE as i128) as i64;
                let ang: i64 = a.start_angle.nanos + off;
                let cs: (i64, i64) = sin_cos(ang);
                let mx: i128 = tdiv_i128((a.rx.nanos as i128) * (a.sweep_angle.nanos as i128),
                    SCALE as i128);
                let my: i128 = tdiv_i128((a.ry.nanos as i128) * (a.sweep_angle.nanos as i128),
                    SCALE as i128);
                proof {
                    lemma_mul_abs_bound(mx as int, cs.1 as int, MAX_PT as int, SCALE as int);
                    lemma_mul_abs_bound(my as int, cs.0 as int, MAX_PT as int, SCALE as int);
                    lemma_tdiv_bound(mx as int * cs.1, SCALE as int, MAX_PT * SCALE as int);
                    lemma_tdiv_bound(my as int * cs.0, SCALE as int, MAX_PT * SCALE as int);
                    lemma_div_multiples_vanish(MAX_PT as int, SCALE as int);
                }
                let ex: i64 = -(tdiv_i128(mx * (cs.1 as i128), SCALE as i128) as i64);
                let ey: i64 = tdiv_i128(my * (cs.0 as i128), SCALE as i128) as i64;
                let rot: Rotation = Rotation::new(a.x_rotation);
                rot.transform_vector(ex, ey)
            },
        }
    }

    /// The horizontal component of [`Segment::derivative`].
    pub fn dx(&self, t: i64) -> (r: i64)
        requires
            wf_seg(*self),
            wf_moderate(*self),
            0 <= t <= SCALE,
        ensures
            r as int == seg_derivative(*self, t as int).0,
    {
        self.derivative(t).0
    }

    /// The vertical component of [`Segment::derivative`].
    pub fn dy(&self, t: i64) -> (r: i64)
        requires
            wf_seg(*self),
            wf_moderate(*self),
            0 <= t <= SCALE,
        ensures
            r as int == seg_derivative(*self, t as int).1,
    {
        self.derivative(t).1
    }

    /// Both halves of the segment split at fraction `t`.  The halves meet
    /// at the sampled split point and keep the outer endpoints.
    #[verifier::rlimit(60)]
    pub fn split(&self, t: i64) -> (r: (Segment, Segment))
        requires
            wf_seg(*self),
            0 <= t <= SCALE,
        ensures
            (r.0, r.1) == seg_split(*self, t as int),
            wf_seg(r.0),
            wf_seg(r.1),
    {
        match self {
            Segment::Line(l) => {
                let mx: i64 = lerp_exec(l.from.x.nanos, l.to.x.nanos, t);
                let my: i64 = lerp_exec(l.from.y.nanos, l.to.y.nanos, t);
                let m: Point2 = Point2 { x: Length { nanos: mx }, y: Length { nanos: my } };
                (
                    Segment::Line(LineSegment { from: l.from, to: m }),
                    Segment::Line(LineSegment { from: m, to: l.to }),
                )
            },
            Segment::Quadratic(q) => {
                let ax: i64 = lerp_exec(q.from.x.nanos, q.ctrl.x.nanos, t);
                let ay: i64 = lerp_exec(q.from.y.nanos, q.ctrl.y.nanos, t);
                let bx: i64 = lerp_exec(q.ctrl.x.nanos, q.to.x.nanos, t);
                let by: i64 = lerp_exec(q.ctrl.y.nanos, q.to.y.nanos, t);
                let mx: i64 = lerp_exec(ax, bx, t);
                let my: i64 = lerp_exec(ay, by, t);
                let a: Point2 = Point2 { x: Length { nanos: ax }, y: Length { nanos: ay } };
                let b: Point2 = Point2 { x: Length { nanos: bx }, y: Length { nanos: by } };
                let m: Point2 = Point2 { x: Length { nanos: mx }, y: Length { nanos: my } };
                (
                    Segment::Quadratic(QuadraticBezier { from: q.from, ctrl: a, to: m }),
                    Segment::Quadratic(QuadraticBezier { from: m, ctrl: b, to: q.to }),
                )
            },
            Segment::Cubic(c) => {
                let ax: i64 = lerp_exec(c.from.x.nanos, c.ctrl1.x.nanos, t);
                let ay: i64 = lerp_exec(c.from.y.nanos, c.ctrl1.y.nanos, t);
                let bx: i64 = lerp_exec(c.ctrl1.x.nanos, c.ctrl2.x.nanos, t);
                let by: i64 = lerp_exec(c.ctrl1.y.nanos, c.ctrl2.y.nanos, t);
                let cx: i64 = lerp_exec(c.ctrl2.x.nanos, c.to.x.nanos, t);
                let cy: i64 = lerp_exec(c.ctrl2.y.nanos, c.to.y.nanos, t);
                let abx: i64 = lerp_exec(ax, bx, t);
                let aby: i64 = lerp_exec(ay, by, t);
                let bcx: i64 = lerp_exec(bx, cx, t);
                let bcy: i64 = lerp_exec(by, cy, t);
                let mx: i64 = lerp_exec(abx, bcx, t);
                let my: i64 = lerp_exec(aby, bcy, t);
                let m: Point2 = Point2 { x: Length { nanos: mx }, y: Length { nanos: my } };
                (
                    Segment::Cubic(CubicBezier {
                        from: c.from,
                        ctrl1: Point2 { x: Length { nanos: ax }, y: Length { nanos: ay } },
                        ctrl2: Point2 { x: Length { nanos: abx }, y: Length { nanos: aby } },
                        to: m,
                    }),
                    Segment::Cubic(CubicBezier {
                        from: m,
                        ctrl1: Point2 { x: Length { nanos: bcx }, y: Length { nanos: bcy } },
                        ctrl2: Point2 { x: Length { nanos: cx }, y: Length { nanos: cy } },
                        to: c.to,
                    }),
                )
            },
            Segment::Arc(a) => {
                proof {
                    lemma_lerp_range(a.start_angle.nanos as int,
                        a.start_angle.nanos + a.sweep_angle.nanos, t as int);
                    lemma_mul_abs_bound(a.sweep_angle.nanos as int, t as int,
                        2 * MAX_SWEEP as int, SCALE as int);
                    lemma_tdiv_bound(a.sweep_angle.nanos as int * t, SCALE as int,
                        2 * MAX_SWEEP * SCALE as int);
                }
                let off: i64 = tdiv_i128((a.sweep_angle.nanos as i128) * (t as i128),
                    SCALE as i128) as i64;
                let mid: i64 = a.start_angle.nanos + off;
                (
                    Segment::Arc(ArcSegment {
                        center: a.center,
                        rx: a.rx,
                        ry: a.ry,
                        start_angle: a.start_angle,
                        sweep_angle: Angle { nanos: off },
                        x_rotation: a.x_rotation,
                    }),
                    Segment::Arc(ArcSegment {
                        center: a.center,
                        rx: a.rx,
                        ry: a.ry,
                        start_angle: Angle { nanos: mid },
                        sweep_angle: Angle {
                            nanos: a.start_angle.nanos + a.sweep_angle.nanos - mid,
                        },
                        x_rotation: a.x_rotation,
                    }),
                )
            },
        }
    }

    /// The part of the segment before the split point.
    pub fn before_split(&self, t: i64) -> (r: Segment)
        requires
            wf_seg(*self),
            0 <= t <= SCALE,
        ensures
            r == seg_split(*self, t as int).0,
            wf_seg(r),
    {
        self.split(t).0
    }

    /// The part of the segment after the split point.
    pub fn after_split(&self, t: i64) -> (r: Segment)
        requires
            wf_seg(*self),
            0 <= t <= SCALE,
        ensures
            r == seg_split(*self, t as int).1,
            wf_seg(r),
    {
        self.split(t).1
    }

    /// The piece of the segment between fractions `t0` and `t1`.
    pub fn split_range(&self, t0: i64, t1: i64) -> (r: Segment)
        requires
            wf_seg(*self),
            0 <= t0 <= t1 <= SCALE,
        ensures
            r == seg_split_range(*self, t0 as int, t1 as int),
            wf_seg(r),
    {
        match self {
            Segment::Line(l) => {
                let fx: i64 = lerp_exec(l.from.x.nanos, l.to.x.nanos, t0);
                let fy: i64 = lerp_exec(l.from.y.nanos, l.to.y.nanos, t0);
                let tx: i64 = lerp_exec(l.from.x.nanos, l.to.x.nanos, t1);
                let ty: i64 = lerp_exec(l.from.y.nanos, l.to.y.nanos, t1);
                Segment::Line(LineSegment {
                    from: Point2 { x: Length { nanos: fx }, y: Length { nanos: fy } },
                    to: Point2 { x: Length { nanos: tx }, y: Length { nanos: ty } },
                })
            },
            Segment::Quadratic(_) => {
                let rest: Segment = self.split(t0).1;
                let t2: i64 = rescaled_cut(t0, t1);
                rest.before_split(t2)
            },
            Segment::Cubic(_) => {
                let rest: Segment = self.split(t0).1;
                let t2: i64 = rescaled_cut(t0, t1);
                rest.before_split(t2)
            },
            Segment::Arc(a) => {
                let a0: i64 = lerp_exec(a.start_angle.nanos,
                    a.start_angle.nanos + a.sweep_angle.nanos, t0);
                let a1: i64 = lerp_exec(a.start_angle.nanos,
                    a.start_angle.nanos + a.sweep_angle.nanos, t1);
                Segment::Arc(ArcSegment {
                    center: a.center,
                    rx: a.rx,
                    ry: a.ry,
                    start_angle: Angle { nanos: a0 },
                    sweep_angle: Angle { nanos: a1 - a0 },
                    x_rotation: a.x_rotation,
                })
            },
        }
    }

    /// The same course, run backwards.
    pub fn flip(&self) -> (r: Segment)
        requires
            wf_seg(*self),
        ensures
            r == seg_flip(*self),
            wf_seg(r),
    {
        match self {
            Segment::Line(l) => Segment::Line(LineSegment { from: l.to, to: l.from }),
            Segment::Quadratic(q) => Segment::Quadratic(QuadraticBezier {
                from: q.to,
                ctrl: q.ctrl,
                to: q.from,
            }),
            Segment::Cubic(c) => Segment::Cubic(CubicBezier {
                from: c.to,
                ctrl1: c.ctrl2,
                ctrl2: c.ctrl1,
                to: c.from,
            }),
            Segment::Arc(a) => Segment::Arc(ArcSegment {
                center: a.center,
                rx: a.rx,
                ry: a.ry,
                start_angle: Angle { nanos: a.start_angle.nanos + a.sweep_angle.nanos },
                sweep_angle: Angle { nanos: -a.sweep_angle.nanos },
                x_rotation: a.x_rotation,
            }),
        }
    }

    /// An estimate of the segment's length: the exact rounded distance for
    /// a straight segment; the mean of chord and control polygon for the
    /// Bezier kinds; sweep times mean radius for an arc.  The tolerance
    /// argument is kept for callers that tune adaptive estimators; this
    /// closed-form estimate does not read it.
    pub fn approximate_length(&self, _tolerance: Length) -> (r: Length)
        requires
            wf_seg(*self),
            wf_moderate(*self),
        ensures
            0 <= r.nanos,
            *self matches Segment::Line(l) ==> r.nanos == dist(l.from, l.to),
            *self matches Segment::Quadratic(q) ==> r.nanos == tdiv(dist(q.from, q.to), 2)
                + tdiv(dist(q.from, q.ctrl) + dist(q.ctrl, q.to), 2),
            *self matches Segment::Cubic(c) ==> r.nanos == tdiv(dist(c.from, c.to), 2) + tdiv(
                dist(c.from, c.ctrl1) + dist(c.ctrl1, c.ctrl2) + dist(c.ctrl2, c.to),
                2,
            ),
            *self matches Segment::Arc(a) ==> r.nanos == tdiv(iabs(a.sweep_angle.nanos as int)
                * (iabs(a.rx.nanos as int) + iabs(a.ry.nanos as int)), 2 * SCALE),
    {
        match self {
            Segment::Line(l) => Length { nanos: l.from.distance_to(&l.to) },
            Segment::Quadratic(q) => {
                let chord: i64 = q.from.distance_to(&q.to);
                let p1: i64 = q.from.distance_to(&q.ctrl);
                let p2: i64 = q.ctrl.distance_to(&q.to);
                proof {
                    lemma_dist_small(chord as int, q.from, q.to);
                    lemma_dist_small(p1 as int, q.from, q.ctrl);
                    lemma_dist_small(p2 as int, q.ctrl, q.to);
                }
                Length { nanos: ((chord as u64 / 2) + (p1 as u64 + p2 as u64) / 2) as i64 }
            },
            Segment::Cubic(c) => {
                let chord: i64 = c.from.distance_to(&c.to);
                let p1: i64 = c.from.distance_to(&c.ctrl1);
                let p2: i64 = c.ctrl1.distance_to(&c.ctrl2);
                let p3: i64 = c.ctrl2.distance_to(&c.to);
                proof {
                    lemma_dist_small(chord as int, c.from, c.to);
                    lemma_dist_small(p1 as int, c.from, c.ctrl1);
                    lemma_dist_small(p2 as int, c.ctrl1, c.ctrl2);
                    lemma_dist_small(p3 as int, c.ctrl2, c.to);
                }
                Length {
                    nanos: ((chord as u64 / 2) + (p1 as u64 + p2 as u64 + p3 as u64) / 2) as i64,
                }
            },
            Segment::Arc(a) => {
                let sw: i64 = if a.sweep_angle.nanos >= 0 {
                    a.sweep_angle.nanos
                } else {
                    -a.sweep_angle.nanos
                };
                let arx: i64 = if a.rx.nanos >= 0 {
                    a.rx.nanos
                } else {
                    -a.rx.nanos
                };
                let ary: i64 = if a.ry.nanos >= 0 {
                    a.ry.nanos
                } else {
                    -a.ry.nanos
                };
                proof {
                    assert(-1_000_000_000_000_000_000_000_000_000int <= sw as int * (arx + ary)
                        <= 1_000_000_000_000_000_000_000_000_000int) by (nonlinear_arith)
                        requires
                            sw == a.sweep_angle.nanos as int || sw == -(a.sweep_angle.nanos as int),
                            arx == a.rx.nanos as int || arx == -(a.rx.nanos as int),
                            ary == a.ry.nanos as int || ary == -(a.ry.nanos as int),
                            0 <= sw,
                            0 <= arx,
                            0 <= ary,
                            -500_000_000_000_000_000_000_000_000int <= a.rx.nanos as int
                                * a.sweep_angle.nanos <= 500_000_000_000_000_000_000_000_000int,
                            -500_000_000_000_000_000_000_000_000int <= a.ry.nanos as int
                                * a.sweep_angle.nanos <= 500_000_000_000_000_000_000_000_000int,
                    ;
                    lemma_tdiv_bound(sw as int * (arx + ary), 2 * SCALE as int,
                        1_000_000_000_000_000_000_000_000_000int);
                    lemma_mul_nonnegative(sw as int, (arx + ary) as int);
                    lemma_div_pos_is_pos(sw as int * (arx + ary), 2 * SCALE as int);
                }
                let prod: i128 = (sw as i128) * ((arx as i128) + (ary as i128));
                Length { nanos: tdiv_i128(prod, 2 * SCALE as i128) as i64 }
            },
        }
    }
}

} // verus!
