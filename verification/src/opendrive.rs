//! The road-description data model: a header, roads, their plan views
//! (ordered geometry primitives) and lane tables.
//!
//! Every quantity that the source format writes as a decimal number is held
//! in fixed point (1e-9 units, see [`crate::scalar`]); the decoding layer
//! that parses the textual form converts at the boundary.  The creation
//! date of a database is carried as whole seconds of Unix time, decoded and
//! formatted outside the core.

use crate::curve::{
    evaluate, eval_caveat, heading_at, line_position, normalized_element, normalized_exec,
    position_at, position_exec, EvaluatedCurve,
};
use crate::errors::ValidationError;
use crate::scalar::{
    iabs, lemma_mul_abs_bound, lemma_tdiv_abs, lemma_tdiv_bound, tdiv, tdiv_i128, Angle,
    Curvature, Length, MAX_ANG, MAX_COORD, MAX_CURV, MAX_LEN, MAX_POLY, MAX_SPAN, SCALE, TOL,
};
use crate::trig::{cos_nano, reduce_nano, sin_nano, HALF_PI, PI, REDUCE_OFFSET, TWO_PI};
use crate::types::{
    rot_x, rot_y, ArcSegment, CubicBezier, LineSegment, Point2, Pose, Rotation, Segment,
};
use vstd::arithmetic::div_mod::{lemma_div_pos_is_pos, lemma_mod_bound};
use vstd::arithmetic::mul::lemma_mul_nonnegative;
use vstd::prelude::*;

verus! {

/// The unit of every coordinate and length of this model.
pub struct Meter;

/// The root of one road-network description.
#[derive(Debug, PartialEq)]
pub struct Root {
    pub header: Header,
    pub roads: Vec<Road>,
}

/// The database header record.
#[derive(Debug, PartialEq)]
pub struct Header {
    /// Major revision number of the format.
    pub rev_major: u16,
    /// Minor revision number of the format.
    pub rev_minor: u16,
    /// Database name.
    pub name: String,
    /// Version number of this database, fixed point (1e-9).
    pub version: i64,
    /// Time of database creation, in whole seconds of Unix time.
    pub date_seconds: i64,
    /// Maximum inertial y value.
    pub north: Length,
    /// Minimum inertial y value.
    pub south: Length,
    /// Maximum inertial x value.
    pub east: Length,
    /// Minimum inertial x value.
    pub west: Length,
    pub max_road: u32,
    pub max_junc: u32,
    pub max_prg: u32,
    pub geo_reference: Option<GeoReference>,
}

/// The geographic projection of the database, as a projection string for an
/// external geodesy component; the core never interprets it.
#[derive(Debug, PartialEq)]
pub struct GeoReference {
    pub projection: String,
}

/// One road: its identity, declared reference-line length, link records,
/// plan-view geometry and lane tables.
#[derive(Debug, PartialEq)]
pub struct Road {
    /// Name of the road.
    pub name: String,
    /// Declared total length of the reference line in the xy-plane.
    pub length: Length,
    /// Unique id within the database.
    pub id: u8,
    /// Id of the junction this road belongs to as a connecting road
    /// (-1 for none).
    pub junction: i8,
    pub link: Option<Link>,
    pub plan_view: PlanView,
    pub elevation_profile: Option<ElevationProfile>,
    pub lateral_profile: Option<LateralProfile>,
    pub lanes: Option<Lanes>,
}

/// Predecessor, successor and neighbor records of a road.
#[derive(Debug, PartialEq)]
pub struct Link {
    pub predecessor: Option<LinkElement>,
    pub successor: Option<LinkElement>,
    pub neighbors: Vec<Neighbor>,
}

/// One linked element of a road.
#[derive(Clone, Copy, Debug, PartialEq, Eq, Structural, Hash)]
pub struct LinkElement {
    pub element_type: ElementType,
    pub element_id: u32,
    pub contact_point: ContactPoint,
}

/// One neighbor record of a road.
#[derive(Clone, Copy, Debug, PartialEq, Eq, Structural, Hash)]
pub struct Neighbor {
    pub side: Side,
    pub element_id: u32,
    pub direction: Direction,
}

/// What kind of element a link points at.
#[derive(Clone, Copy, Debug, PartialEq, Eq, Structural, Hash)]
pub enum ElementType {
    Road,
    Junction,
}

impl Default for ElementType {
    /// The conventional default link target kind.
    fn default() -> (r: ElementType)
        ensures
            r == ElementType::Road,
    {
        ElementType::Road
    }
}

/// Which end of the linked element is touched.
#[derive(Clone, Copy, Debug, PartialEq, Eq, Structural, Hash)]
pub enum ContactPoint {
    Start,
    End,
}

impl Default for ContactPoint {
    /// The conventional default contact point.
    fn default() -> (r: ContactPoint)
        ensures
            r == ContactPoint::Start,
    {
        ContactPoint::Start
    }
}

/// Which side a neighbor lies on.
#[derive(Clone, Copy, Debug, PartialEq, Eq, Structural, Hash)]
pub enum Side {
    Left,
    Right,
}

impl Default for Side {
    /// The conventional default side.
    fn default() -> (r: Side)
        ensures
            r == Side::Left,
    {
        Side::Left
    }
}

/// Whether a neighbor runs the same way or the opposite way.
#[derive(Clone, Copy, Debug, PartialEq, Eq, Structural, Hash)]
pub enum Direction {
    Same,
    Opposite,
}

impl Default for Direction {
    /// The conventional default direction.
    fn default() -> (r: Direction)
        ensures
            r == Direction::Same,
    {
        Direction::Same
    }
}

impl Default for LinkElement {
    /// A link element with every field at its conventional default.
    fn default() -> (r: LinkElement)
        ensures
            r == (LinkElement {
                element_type: ElementType::Road,
                element_id: 0,
                contact_point: ContactPoint::Start,
            }),
    {
        LinkElement {
            element_type: ElementType::Road,
            element_id: 0,
            contact_point: ContactPoint::Start,
        }
    }
}

impl Default for Neighbor {
    /// A neighbor record with every field at its conventional default.
    fn default() -> (r: Neighbor)
        ensures
            r == (Neighbor { side: Side::Left, element_id: 0, direction: Direction::Same }),
    {
        Neighbor { side: Side::Left, element_id: 0, direction: Direction::Same }
    }
}

/// The plan view: the road's reference line in the xy-plane, as an ordered
/// series of geometry primitives.
#[derive(Debug, PartialEq)]
pub struct PlanView {
    pub geometries: Vec<Geometry>,
}

impl Default for PlanView {
    /// A plan view with no geometry.
    fn default() -> (r: PlanView)
        ensures
            r.geometries@.len() == 0,
    {
        PlanView { geometries: Vec::new() }
    }
}

/// One road-geometry record: a header common to all shapes (arc-length
/// offset, start position, start heading, element length) and the
/// shape-specific payload.
#[derive(Clone, Copy, Debug, PartialEq, Eq, Structural, Hash)]
pub struct Geometry {
    /// Start position along the reference line (s-coordinate), nonnegative.
    pub s: Length,
    /// Start position, x inertial.
    pub x: Length,
    /// Start position, y inertial.
    pub y: Length,
    /// Start orientation (inertial heading), radians in fixed point.
    pub hdg: Angle,
    /// Length of the element's reference line, nonnegative.
    pub length: Length,
    /// The shape payload.
    pub element: GeometryElement,
}

/// The shape payload of one geometry record.
#[derive(Clone, Copy, Debug, PartialEq, Eq, Structural, Hash)]
pub enum GeometryElement {
    /// A straight line.
    Line,
    /// A clothoid spiral: curvature varies linearly from `curv_start` at
    /// the element's start to `curv_end` at its end.
    Spiral { curv_start: Curvature, curv_end: Curvature },
    /// A circular arc of constant curvature.
    Arc { curvature: Curvature },
    /// A cubic polynomial lateral offset `v(u) = a + b u + c u^2 + d u^3`
    /// in the frame of the start pose; coefficients in fixed point (1e-9).
    Poly3 { a: i64, b: i64, c: i64, d: i64 },
}

/// A bound on the lateral magnitude a polynomial shape can reach within its
/// element: the absolute-coefficient Horner form evaluated at the element
/// length, with the same truncating divisions the evaluator uses.
pub open spec fn poly3_span(a: int, b: int, c: int, d: int, len: int) -> int {
    iabs(a) + tdiv(len * (iabs(b) + tdiv(len * (iabs(c) + tdiv(len * iabs(d), SCALE as int)),
    SCALE as int)), SCALE as int)
}

/// A well-formed geometry record: every field within the modeled ranges,
/// and a polynomial payload that stays within the coordinate range.
pub open spec fn wf_geometry(g: Geometry) -> bool {
    &&& 0 <= g.s.nanos <= MAX_LEN
    &&& -MAX_COORD <= g.x.nanos <= MAX_COORD
    &&& -MAX_COORD <= g.y.nanos <= MAX_COORD
    &&& -MAX_ANG <= g.hdg.nanos <= MAX_ANG
    &&& 0 <= g.length.nanos <= MAX_LEN
    &&& match g.element {
        GeometryElement::Line => true,
        GeometryElement::Spiral { curv_start, curv_end } => {
            &&& -MAX_CURV <= curv_start.nanos <= MAX_CURV
            &&& -MAX_CURV <= curv_end.nanos <= MAX_CURV
        },
        GeometryElement::Arc { curvature } => -MAX_CURV <= curvature.nanos <= MAX_CURV,
        GeometryElement::Poly3 { a, b, c, d } => {
            &&& -MAX_POLY <= a <= MAX_POLY
            &&& -MAX_POLY <= b <= MAX_POLY
            &&& -MAX_POLY <= c <= MAX_POLY
            &&& -MAX_POLY <= d <= MAX_POLY
            &&& poly3_span(a as int, b as int, c as int, d as int, g.length.nanos as int)
                <= MAX_SPAN
        },
    }
}

/// The elevation records of a road along its reference line.  The source
/// format's per-record fields carry no computation; this model keeps the
/// record as a marker, as the original schema does.
#[derive(Clone, Copy, Debug, PartialEq, Eq, Structural, Hash)]
pub struct ElevationProfile {

}

/// The superelevation and crossfall records of a road.
#[derive(Clone, Copy, Debug, PartialEq, Eq, Structural, Hash)]
pub struct LateralProfile {

}

/// The lane tables of a road.
#[derive(Debug, PartialEq)]
pub struct Lanes {
    pub lane_offsets: Vec<LaneOffset>,
    pub lane_sections: Vec<LaneSection>,
}

/// A lateral shift of the lane reference line against the road reference
/// line, as a cubic polynomial of `s`.
#[derive(Clone, Copy, Debug, PartialEq, Eq, Structural, Hash)]
pub struct LaneOffset {
    /// Start position (s-coordinate).
    pub s: Length,
    /// Offset at the start of the record, fixed point.
    pub a: i64,
    /// Linear coefficient, fixed point.
    pub b: i64,
    /// Quadratic coefficient, fixed point.
    pub c: i64,
    /// Cubic coefficient, fixed point.
    pub d: i64,
}

/// One cross-section of the road: the lanes on each side of the center.
#[derive(Debug, PartialEq)]
pub struct LaneSection {
    /// Start position (s-coordinate).
    pub s: Length,
    /// Whether the entry is valid for one side only.
    pub single_side: bool,
    pub left: Option<LaneSubSection>,
    pub center: LaneSubSection,
    pub right: Option<LaneSubSection>,
}

/// The lanes of one side of a lane section.
#[derive(Debug, PartialEq)]
pub struct LaneSubSection {
    pub lane: Vec<Lane>,
}

/// One lane of a cross-section.
#[derive(Debug, PartialEq)]
pub struct Lane {
    /// Id of the lane; lanes are numbered from the center outward, left
    /// positive and right negative.
    pub id: i32,
    /// What the lane is for.
    pub lane_type: LaneType,
    /// Whether the lane is kept level, that is exempt from superelevation
    /// and crossfall.
    pub level: bool,
    /// Per-lane predecessor/successor information.
    pub link: Option<LaneLink>,
    pub widths: Vec<Width>,
    pub road_marks: Vec<RoadMark>,
}

impl Default for Lane {
    /// A lane with no type, no link, and empty width and road-mark tables.
    fn default() -> (r: Lane)
        ensures
            r.id == 0,
            r.lane_type == LaneType::NoneLane,
            r.level == false,
            r.link is None,
            r.widths@.len() == 0,
            r.road_marks@.len() == 0,
    {
        Lane {
            id: 0,
            lane_type: LaneType::NoneLane,
            level: false,
            link: None,
            widths: Vec::new(),
            road_marks: Vec::new(),
        }
    }
}

/// What a lane is for.
#[derive(Clone, Copy, Debug, PartialEq, Eq, Structural, Hash)]
pub enum LaneType {
    NoneLane,
    Driving,
    Stop,
    Shoulder,
    Biking,
    Sidewalk,
    Border,
    Restricted,
    Parking,
    /// A continuous two-way left turn lane.
    Bidirectional,
    Median,
    Special1,
    Special2,
    Special3,
    RoadWorks,
    Tram,
    Rail,
    Entry,
    Exit,
    OffRamp,
    OnRamp,
}

impl Default for LaneType {
    /// The conventional default lane type.
    fn default() -> (r: LaneType)
        ensures
            r == LaneType::NoneLane,
    {
        LaneType::NoneLane
    }
}

/// Per-lane predecessor/successor records.
#[derive(Clone, Copy, Debug, PartialEq, Eq, Structural, Hash)]
pub struct LaneLink {
    pub predecessor: Option<LaneLinkElement>,
    pub successor: Option<LaneLinkElement>,
}

impl Default for LaneLink {
    /// A lane link with neither predecessor nor successor.
    fn default() -> (r: LaneLink)
        ensures
            r == (LaneLink { predecessor: None, successor: None }),
    {
        LaneLink { predecessor: None, successor: None }
    }
}

/// One linked lane.
#[derive(Clone, Copy, Debug, PartialEq, Eq, Structural, Hash)]
pub struct LaneLinkElement {
    pub id: i32,
}

/// One width record of a lane: a cubic polynomial of the offset from the
/// enclosing lane section.
#[derive(Clone, Copy, Debug, PartialEq, Eq, Structural, Hash)]
pub struct Width {
    /// Start position relative to the enclosing lane section.
    pub s_offset: Length,
    /// Width at the start of the record, fixed point.
    pub a: i64,
    /// Linear coefficient, fixed point.
    pub b: i64,
    /// Quadratic coefficient, fixed point.
    pub c: i64,
    /// Cubic coefficient, fixed point.
    pub d: i64,
}

/// One road-mark record of a lane: the style of the line at the lane's
/// outer border.
#[derive(Debug, PartialEq)]
pub struct RoadMark {
    /// Start position relative to the enclosing lane section.
    pub s_offset: Length,
    pub road_mark_type: RoadMarkType,
    pub weight: RoadMarkWeight,
    pub color: RoadMarkColor,
    /// Material of the road mark.
    pub material: Option<String>,
    /// Width of the road mark.
    pub width: Length,
    /// Which lane change the mark allows.
    pub lane_change: LaneChangeType,
    /// Physical distance of the mark's top edge from the lane's reference
    /// plane.
    pub height: Length,
}

/// The painted form of a road mark.
#[derive(Clone, Copy, Debug, PartialEq, Eq, Structural, Hash)]
pub enum RoadMarkType {
    NoneMark,
    Solid,
    Broken,
    /// A double solid line.
    SolidSolid,
    /// Solid then broken, from inside to outside.
    SolidBroken,
    /// Broken then solid, from inside to outside.
    BrokenSolid,
    /// A double broken line.
    BrokenBroken,
    BottsDots,
    /// A grass edge.
    Grass,
    Curb,
}

/// The weight of a road mark.
#[derive(Clone, Copy, Debug, PartialEq, Eq, Structural, Hash)]
pub enum RoadMarkWeight {
    Standard,
    Bold,
}

impl Default for RoadMarkWeight {
    /// The conventional default weight.
    fn default() -> (r: RoadMarkWeight)
        ensures
            r == RoadMarkWeight::Standard,
    {
        RoadMarkWeight::Standard
    }
}

/// The color of a road mark.
#[derive(Clone, Copy, Debug, PartialEq, Eq, Structural, Hash)]
pub enum RoadMarkColor {
    /// Equivalent to white.
    Standard,
    Blue,
    Green,
    Red,
    White,
    Yellow,
}

impl Default for RoadMarkColor {
    /// The conventional default color.
    fn default() -> (r: RoadMarkColor)
        ensures
            r == RoadMarkColor::Standard,
    {
        RoadMarkColor::Standard
    }
}

/// Which lane change a road mark allows.
#[derive(Clone, Copy, Debug, PartialEq, Eq, Structural, Hash)]
pub enum LaneChangeType {
    Increase,
    Decrease,
    Both,
    Neither,
}

impl Default for LaneChangeType {
    /// Both directions are allowed when the record says nothing.
    fn default() -> (r: LaneChangeType)
        ensures
            r == LaneChangeType::Both,
    {
        LaneChangeType::Both
    }
}

/// A strictly increasing run of values, the ordering the monotonicity
/// helper tests for.
pub open spec fn is_monotonic_seq(s: Seq<i64>) -> bool {
    forall|i: int, j: int| 0 <= i < j < s.len() ==> #[trigger] s[i] < #[trigger] s[j]
}

/// Whether the values are strictly increasing from one to the next.
pub fn is_monotonic(values: &Vec<i64>) -> (r: bool)
    ensures
        r == is_monotonic_seq(values@),
{
    let n: usize = values.len();
    let mut i: usize = 1;
    while i < n
        invariant
            1 <= i,
            n == values@.len(),
            i <= n || n < 2,
            forall|x: int, y: int| 0 <= x < y < i ==> #[trigger] values@[x] < #[trigger] values@[y],
        decreases n - i,
    {
        if values[i - 1] >= values[i] {
            return false;
        }
        i = i + 1;
    }
    true
}

/// Every record of the sequence is well formed.
pub open spec fn all_wf(gs: Seq<Geometry>) -> bool {
    forall|i: int| 0 <= i < gs.len() ==> wf_geometry(#[trigger] gs[i])
}

/// The arc-length offsets never decrease along the sequence.
pub open spec fn s_ordered(gs: Seq<Geometry>) -> bool {
    forall|i: int, j: int|
        0 <= i <= j < gs.len() ==> (#[trigger] gs[i]).s.nanos <= (#[trigger] gs[j]).s.nanos
}

/// The angular difference wrapped to half a turn either way: headings a
/// whole number of turns apart count as equal.
pub open spec fn ang_gap(d: int) -> int {
    let m = reduce_nano(d);
    if m > PI {
        m - TWO_PI
    } else {
        m
    }
}

/// Two consecutive records join: the pose evaluated at the end of the
/// first matches the declared start pose of the second, the position
/// within [`TOL`] (squared Euclidean test) and the heading within [`TOL`]
/// modulo full turns.
pub open spec fn joins(a: Geometry, b: Geometry) -> bool {
    let end = position_at(a, a.length.nanos as int);
    let dx = b.x.nanos - end.0;
    let dy = b.y.nanos - end.1;
    let dh = b.hdg.nanos - heading_at(a, a.length.nanos as int);
    dx * dx + dy * dy <= TOL * TOL && iabs(ang_gap(dh)) <= TOL
}

/// Every pair of consecutive records joins.
pub open spec fn continuous(gs: Seq<Geometry>) -> bool {
    forall|i: int| 1 <= i < gs.len() ==> #[trigger] joins(gs[i - 1], gs[i])
}

/// The sum of the element lengths of the sequence.
pub open spec fn total_len(gs: Seq<Geometry>) -> int
    decreases gs.len(),
{
    if gs.len() == 0 {
        0
    } else {
        total_len(gs.drop_last()) + gs.last().length.nanos
    }
}

/// The tolerance for the length-accounting check: one part in a million of
/// the declared length, floored at the absolute [`TOL`].
pub open spec fn length_tol(declared: int) -> int {
    if tdiv(declared, 1_000_000) > TOL {
        tdiv(declared, 1_000_000)
    } else {
        TOL as int
    }
}

/// What a validation error attests: the first violating index with its
/// measured witness data, or the mismatched lengths.  A length mismatch is
/// only reported by the road-level validator (`with_length`), and only
/// after the plan-view checks have passed.
pub open spec fn error_evidence(
    gs: Seq<Geometry>,
    declared: int,
    with_length: bool,
    e: ValidationError,
) -> bool {
    match e {
        ValidationError::NonMonotonicArcLength { index } => {
            &&& 1 <= index < gs.len()
            &&& gs[index - 1].s.nanos > gs[index as int].s.nanos
            &&& forall|x: int, y: int|
                0 <= x <= y < index ==> (#[trigger] gs[x]).s.nanos <= (#[trigger] gs[y]).s.nanos
        },
        ValidationError::DiscontinuousReferenceLine { index, position_gap, heading_gap } => {
            let end = position_at(gs[index - 1], gs[index - 1].length.nanos as int);
            let dx = gs[index as int].x.nanos - end.0;
            let dy = gs[index as int].y.nanos - end.1;
            &&& s_ordered(gs)
            &&& 1 <= index < gs.len()
            &&& !joins(gs[index - 1], gs[index as int])
            &&& forall|j: int| 1 <= j < index ==> #[trigger] joins(gs[j - 1], gs[j])
            &&& position_gap.nanos * position_gap.nanos <= dx * dx + dy * dy
            &&& dx * dx + dy * dy < (position_gap.nanos + 1) * (position_gap.nanos + 1)
            &&& heading_gap.nanos == iabs(ang_gap(gs[index as int].hdg.nanos - heading_at(
                gs[index - 1],
                gs[index - 1].length.nanos as int,
            )))
        },
        ValidationError::LengthMismatch { declared: d, computed } => {
            &&& with_length
            &&& s_ordered(gs)
            &&& continuous(gs)
            &&& d.nanos == declared
            &&& computed.nanos == total_len(gs)
            &&& iabs(declared - total_len(gs)) > length_tol(declared)
        },
    }
}

/// An attested violation refutes the corresponding whole-sequence check.
pub proof fn lemma_evidence_refutes(
    gs: Seq<Geometry>,
    declared: int,
    with_length: bool,
    e: ValidationError,
)
    requires
        error_evidence(gs, declared, with_length, e),
    ensures
        e matches ValidationError::NonMonotonicArcLength { index } ==> !s_ordered(gs),
        e matches ValidationError::DiscontinuousReferenceLine {
            index,
            position_gap,
            heading_gap,
        } ==> !continuous(gs),
        e matches ValidationError::LengthMismatch { declared: d, computed } ==> !(iabs(
            declared - total_len(gs),
        ) <= length_tol(declared)),
{
}

/// The element lengths summed without overflow.
fn sum_lengths_wide(gs: &Vec<Geometry>) -> (s: i128)
    requires
        all_wf(gs@),
    ensures
        s == total_len(gs@),
        0 <= s <= 100_000_000_000_000i128 * gs@.len(),
{
    let n: usize = gs.len();
    let mut acc: i128 = 0;
    let mut i: usize = 0;
    while i < n
        invariant
            all_wf(gs@),
            n == gs@.len(),
            0 <= i <= n,
            acc == total_len(gs@.subrange(0, i as int)),
            0 <= acc <= 100_000_000_000_000i128 * i,
        decreases n - i,
    {
        proof {
            assert(gs@.subrange(0, i + 1).drop_last() =~= gs@.subrange(0, i as int));
            assert(gs@.subrange(0, i + 1).last() == gs@[i as int]);
        }
        acc = acc + (gs[i].length.nanos as i128);
        i = i + 1;
    }
    proof {
        assert(gs@.subrange(0, n as int) =~= gs@);
    }
    acc
}

impl PlanView {
    /// Check the cross-element invariants of the plan view: the arc-length
    /// offsets must never decrease, and each record's declared start pose
    /// must match the evaluated end pose of its predecessor within
    /// tolerance.  Stops at the first violation and reports its index and,
    /// for a continuity break, the measured gaps.
    #[verifier::rlimit(100)]
    pub fn validate(&self) -> (r: Result<(), ValidationError>)
        requires
            all_wf(self.geometries@),
        ensures
            r is Ok <==> s_ordered(self.geometries@) && continuous(self.geometries@),
            r matches Err(e) ==> error_evidence(self.geometries@, 0, false, e),
    {
        let n: usize = self.geometries.len();
        let mut i: usize = 1;
        while i < n
            invariant
                1 <= i,
                n == self.geometries@.len(),
                i <= n || n < 2,
                forall|x: int, y: int|
                    0 <= x <= y < i ==> (#[trigger] self.geometries@[x]).s.nanos <= (
                    #[trigger] self.geometries@[y]).s.nanos,
            decreases n - i,
        {
            if self.geometries[i - 1].s.nanos > self.geometries[i].s.nanos {
                let e = ValidationError::NonMonotonicArcLength { index: i };
                proof {
                    assert(error_evidence(self.geometries@, 0, false, e));
                    lemma_evidence_refutes(self.geometries@, 0, false, e);
                }
                return Err(e);
            }
            i = i + 1;
        }
        let mut i: usize = 1;
        while i < n
            invariant
                all_wf(self.geometries@),
                s_ordered(self.geometries@),
                1 <= i,
                n == self.geometries@.len(),
                i <= n || n < 2,
                forall|j: int|
                    1 <= j < i ==> #[trigger] joins(self.geometries@[j - 1], self.geometries@[j]),
            decreases n - i,
        {
            let prev: &Geometry = &self.geometries[i - 1];
            let cur: &Geometry = &self.geometries[i];
            let end: Point2 = position_exec(prev, prev.length.nanos);
            let eh: i64 = crate::curve::heading_exec(prev, prev.length.nanos);
            let dx: i64 = cur.x.nanos - end.x.nanos;
            let dy: i64 = cur.y.nanos - end.y.nanos;
            let dh: i64 = cur.hdg.nanos - eh;
            let du: u64 = ((dh + REDUCE_OFFSET) as u64) % (TWO_PI as u64);
            proof {
                lemma_mod_bound((dh + REDUCE_OFFSET) as int, TWO_PI as int);
            }
            let wrapped: i64 = if (du as i64) > PI {
                (du as i64) - TWO_PI
            } else {
                du as i64
            };
            let adh: i64 = if wrapped >= 0 {
                wrapped
            } else {
                -wrapped
            };
            proof {
                lemma_mul_abs_bound(dx as int, dx as int, 400_000_000_000_000_000,
                    400_000_000_000_000_000);
                lemma_mul_abs_bound(dy as int, dy as int, 400_000_000_000_000_000,
                    400_000_000_000_000_000);
            }
            let d2: i128 = (dx as i128) * (dx as i128) + (dy as i128) * (dy as i128);
            if d2 > 1_000_000i128 || adh > TOL {
                proof {
                    assert(!joins(self.geometries@[i - 1], self.geometries@[i as int]));
                }
                let start_pt: Point2 = Point2 { x: cur.x, y: cur.y };
                let gap: i64 = end.distance_to(&start_pt);
                let e = ValidationError::DiscontinuousReferenceLine {
                    index: i,
                    position_gap: Length { nanos: gap },
                    heading_gap: Angle { nanos: adh },
                };
                proof {
                    assert(error_evidence(self.geometries@, 0, false, e));
                    lemma_evidence_refutes(self.geometries@, 0, false, e);
                }
                return Err(e);
            }
            proof {
                assert(joins(self.geometries@[i - 1], self.geometries@[i as int]));
            }
            i = i + 1;
        }
        Ok(())
    }

    /// The sum of the lengths of all geometry records.
    pub fn sum_length(&self) -> (r: Length)
        requires
            all_wf(self.geometries@),
            total_len(self.geometries@) <= i64::MAX,
        ensures
            r.nanos == total_len(self.geometries@),
    {
        let wide: i128 = sum_lengths_wide(&self.geometries);
        Length { nanos: wide as i64 }
    }
}

impl Road {
    /// Validate the road's reference line: the plan-view checks, then the
    /// length accounting against the declared road length.  An empty plan
    /// view is valid only when the declared length is (within tolerance)
    /// zero.
    pub fn validate(&self) -> (r: Result<(), ValidationError>)
        requires
            all_wf(self.plan_view.geometries@),
            total_len(self.plan_view.geometries@) <= i64::MAX,
        ensures
            ({
                let gs = self.plan_view.geometries@;
                let d = self.length.nanos as int;
                &&& (r is Ok <==> s_ordered(gs) && continuous(gs) && iabs(d - total_len(gs))
                    <= length_tol(d))
                &&& (r matches Err(e) ==> error_evidence(gs, d, true, e))
            }),
    {
        match self.plan_view.validate() {
            Err(e) => {
                proof {
                    lemma_evidence_refutes(self.plan_view.geometries@,
                        self.length.nanos as int, true, e);
                }
                Err(e)
            },
            Ok(()) => {
                let sum: i128 = sum_lengths_wide(&self.plan_view.geometries);
                let declared: i64 = self.length.nanos;
                let rel: i64 = tdiv_i128(declared as i128, 1_000_000) as i64;
                let tol: i64 = if rel > TOL {
                    rel
                } else {
                    TOL
                };
                let diff: i128 = if (declared as i128) >= sum {
                    (declared as i128) - sum
                } else {
                    sum - (declared as i128)
                };
                if diff <= tol as i128 {
                    Ok(())
                } else {
                    let e = ValidationError::LengthMismatch {
                        declared: self.length,
                        computed: Length { nanos: sum as i64 },
                    };
                    proof {
                        assert(error_evidence(self.plan_view.geometries@,
                            self.length.nanos as int, true, e));
                        lemma_evidence_refutes(self.plan_view.geometries@,
                            self.length.nanos as int, true, e);
                    }
                    Err(e)
                }
            },
        }
    }

    /// Assemble the road: evaluate every primitive, run the full
    /// validation, and return the evaluated curves with the verified total
    /// length.
    pub fn assemble(&self) -> (r: Result<(Vec<EvaluatedCurve>, Length), ValidationError>)
        requires
            all_wf(self.plan_view.geometries@),
            total_len(self.plan_view.geometries@) <= i64::MAX,
        ensures
            ({
                let gs = self.plan_view.geometries@;
                let d = self.length.nanos as int;
                &&& (r is Ok <==> s_ordered(gs) && continuous(gs) && iabs(d - total_len(gs))
                    <= length_tol(d))
                &&& (r matches Ok(out) ==> {
                    &&& out.1.nanos == total_len(gs)
                    &&& out.0@.len() == gs.len()
                    &&& forall|i: int|
                        0 <= i < gs.len() ==> (#[trigger] out.0@[i]).geometry == gs[i]
                            && out.0@[i].caveat == eval_caveat(gs[i])
                })
                &&& (r matches Err(e) ==> error_evidence(gs, d, true, e))
            }),
    {
        match self.validate() {
            Err(e) => Err(e),
            Ok(()) => {
                let n: usize = self.plan_view.geometries.len();
                let mut curves: Vec<EvaluatedCurve> = Vec::new();
                let mut i: usize = 0;
                while i < n
                    invariant
                        all_wf(self.plan_view.geometries@),
                        n == self.plan_view.geometries@.len(),
                        0 <= i <= n,
                        curves@.len() == i,
                        forall|j: int|
                            0 <= j < i ==> (#[trigger] curves@[j]).geometry
                                == self.plan_view.geometries@[j] && curves@[j].caveat
                                == eval_caveat(self.plan_view.geometries@[j]),
                    decreases n - i,
                {
                    let c: EvaluatedCurve = evaluate(&self.plan_view.geometries[i]);
                    curves.push(c);
                    i = i + 1;
                }
                let total: Length = self.plan_view.sum_length();
                Ok((curves, total))
            },
        }
    }
}

/// The signed radius of an arc: the reciprocal of its curvature, truncated
/// toward zero.  The sign keeps the turn direction: positive curvature
/// turns left and puts the center on the left.
pub open spec fn arc_radius(k: int) -> int {
    if k > 0 {
        tdiv(SCALE * SCALE, k)
    } else {
        -tdiv(SCALE * SCALE, -k)
    }
}

/// The center of an arc record: the vector `(0, radius)` carried into the
/// start frame, from the start position.
pub open spec fn arc_center(g: Geometry, k: int) -> (int, int) {
    let c = cos_nano(g.hdg.nanos as int);
    let s = sin_nano(g.hdg.nanos as int);
    let r = arc_radius(k);
    (g.x.nanos + rot_x(c, s, 0, r), g.y.nanos + rot_y(c, s, 0, r))
}

/// The segment form of a geometry record, shape by shape.
///
/// A line maps to a line segment from the start position to the evaluated
/// endpoint.  An arc maps to the circle-arc segment with the center and
/// signed radius of the record; the ellipse frame is turned back a quarter
/// turn because a zero road heading runs along the x axis while the
/// ellipse angle is measured from its own x radius.  A polynomial shape is
/// exactly a cubic curve, so it maps to the cubic Bezier whose control
/// points are derived from the power coefficients.  A general spiral has
/// no closed segment form; its chord (start to evaluated end) stands in.
pub open spec fn as_segment_spec(g: Geometry) -> Segment {
    match normalized_element(g) {
        GeometryElement::Line => Segment::Line(LineSegment {
            from: Point2 { x: g.x, y: g.y },
            to: crate::types::spec_pt(line_position(g, g.length.nanos as int).0,
                line_position(g, g.length.nanos as int).1),
        }),
        GeometryElement::Arc { curvature } => {
            let k = curvature.nanos as int;
            Segment::Arc(ArcSegment {
                center: crate::types::spec_pt(arc_center(g, k).0, arc_center(g, k).1),
                rx: Length { nanos: arc_radius(k) as i64 },
                ry: Length { nanos: arc_radius(k) as i64 },
                start_angle: g.hdg,
                sweep_angle: Angle { nanos: tdiv(g.length.nanos * k, SCALE as int) as i64 },
                x_rotation: Angle { nanos: (-HALF_PI) as i64 },
            })
        },
        GeometryElement::Spiral { .. } => Segment::Line(LineSegment {
            from: Point2 { x: g.x, y: g.y },
            to: crate::types::spec_pt(position_at(g, g.length.nanos as int).0,
                position_at(g, g.length.nanos as int).1),
        }),
        GeometryElement::Poly3 { a, b, c, d } => {
            let l = g.length.nanos as int;
            let pb = tdiv(b * l, SCALE as int);
            let pc = tdiv(tdiv(c * l, SCALE as int) * l, SCALE as int);
            let pd = tdiv(tdiv(tdiv(d * l, SCALE as int) * l, SCALE as int) * l, SCALE as int);
            let co = cos_nano(g.hdg.nanos as int);
            let si = sin_nano(g.hdg.nanos as int);
            let x1 = tdiv(l, 3);
            let x2 = tdiv(2 * l, 3);
            let y0 = a as int;
            let y1 = a + tdiv(pb, 3);
            let y2 = a + tdiv(2 * pb, 3) + tdiv(pc, 3);
            let y3 = a + pb + pc + pd;
            Segment::Cubic(CubicBezier {
                from: crate::types::spec_pt(g.x.nanos + rot_x(co, si, 0, y0),
                    g.y.nanos + rot_y(co, si, 0, y0)),
                ctrl1: crate::types::spec_pt(g.x.nanos + rot_x(co, si, x1, y1),
                    g.y.nanos + rot_y(co, si, x1, y1)),
                ctrl2: crate::types::spec_pt(g.x.nanos + rot_x(co, si, x2, y2),
                    g.y.nanos + rot_y(co, si, x2, y2)),
                to: crate::types::spec_pt(g.x.nanos + rot_x(co, si, g.length.nanos as int, y3),
                    g.y.nanos + rot_y(co, si, g.length.nanos as int, y3)),
            })
        },
    }
}

/// The power coefficients of a polynomial record, rescaled to its whole
/// element, stay within the span bound.
proof fn lemma_poly3_power_coeffs(a: int, b: int, c: int, d: int, l: int)
    requires
        0 <= l,
        poly3_span(a, b, c, d, l) <= MAX_SPAN,
    ensures
        iabs(tdiv(b * l, SCALE as int)) <= MAX_SPAN,
        iabs(tdiv(tdiv(c * l, SCALE as int) * l, SCALE as int)) <= MAX_SPAN,
        iabs(tdiv(tdiv(tdiv(d * l, SCALE as int) * l, SCALE as int) * l, SCALE as int))
            <= MAX_SPAN,
{
    let m3 = tdiv(l * iabs(d), SCALE as int);
    let m2 = tdiv(l * (iabs(c) + m3), SCALE as int);
    let m1 = tdiv(l * (iabs(b) + m2), SCALE as int);
    lemma_span_parts_nonneg(a, b, c, d, l);
    lemma_mul_abs_bound(b, l, iabs(b), l);
    lemma_tdiv_abs(b * l, SCALE as int);
    lemma_mul_nonnegative(l, iabs(b) + m2);
    vstd::arithmetic::mul::lemma_mul_is_distributive_add(l, iabs(b), m2);
    lemma_mul_nonnegative(l, m2);
    assert(iabs(b) * l == l * iabs(b)) by (nonlinear_arith);
    vstd::arithmetic::div_mod::lemma_div_is_ordered(iabs(b * l), l * (iabs(b) + m2),
        SCALE as int);
    let xc = tdiv(c * l, SCALE as int);
    lemma_mul_abs_bound(c, l, iabs(c), l);
    lemma_tdiv_abs(c * l, SCALE as int);
    lemma_mul_nonnegative(l, iabs(c) + m3);
    vstd::arithmetic::mul::lemma_mul_is_distributive_add(l, iabs(c), m3);
    lemma_mul_nonnegative(l, m3);
    assert(iabs(c) * l == l * iabs(c)) by (nonlinear_arith);
    vstd::arithmetic::div_mod::lemma_div_is_ordered(iabs(c * l), l * (iabs(c) + m3),
        SCALE as int);
    lemma_mul_abs_bound(xc, l, m2, l);
    lemma_tdiv_abs(xc * l, SCALE as int);
    assert(m2 * l == l * m2) by (nonlinear_arith);
    vstd::arithmetic::mul::lemma_mul_inequality(m2, iabs(b) + m2, l);
    assert(m2 * l <= (iabs(b) + m2) * l ==> l * m2 <= l * (iabs(b) + m2)) by (nonlinear_arith);
    vstd::arithmetic::div_mod::lemma_div_is_ordered(iabs(xc * l), l * (iabs(b) + m2),
        SCALE as int);
    let xd = tdiv(d * l, SCALE as int);
    lemma_mul_abs_bound(d, l, iabs(d), l);
    lemma_tdiv_abs(d * l, SCALE as int);
    assert(iabs(d) * l == l * iabs(d)) by (nonlinear_arith);
    lemma_mul_nonnegative(l, iabs(d));
    vstd::arithmetic::div_mod::lemma_div_is_ordered(iabs(d * l), l * iabs(d), SCALE as int);
    let yd = tdiv(xd * l, SCALE as int);
    lemma_mul_abs_bound(xd, l, m3, l);
    lemma_tdiv_abs(xd * l, SCALE as int);
    assert(m3 * l == l * m3) by (nonlinear_arith);
    vstd::arithmetic::mul::lemma_mul_inequality(m3, iabs(c) + m3, l);
    assert(m3 * l <= (iabs(c) + m3) * l ==> l * m3 <= l * (iabs(c) + m3)) by (nonlinear_arith);
    vstd::arithmetic::div_mod::lemma_div_is_ordered(iabs(xd * l), l * (iabs(c) + m3),
        SCALE as int);
    lemma_mul_abs_bound(yd, l, m2, l);
    lemma_tdiv_abs(yd * l, SCALE as int);
    assert(m2 * l <= (iabs(b) + m2) * l ==> l * m2 <= l * (iabs(b) + m2)) by (nonlinear_arith);
    vstd::arithmetic::div_mod::lemma_div_is_ordered(iabs(yd * l), l * (iabs(b) + m2),
        SCALE as int);
}

/// Every stage of the span bound is nonnegative.
proof fn lemma_span_parts_nonneg(a: int, b: int, c: int, d: int, l: int)
    requires
        0 <= l,
    ensures
        0 <= tdiv(l * iabs(d), SCALE as int),
        0 <= tdiv(l * (iabs(c) + tdiv(l * iabs(d), SCALE as int)), SCALE as int),
        0 <= tdiv(l * (iabs(b) + tdiv(l * (iabs(c) + tdiv(l * iabs(d), SCALE as int)),
        SCALE as int)), SCALE as int),
{
    lemma_mul_nonnegative(l, iabs(d));
    lemma_div_pos_is_pos(l * iabs(d), SCALE as int);
    lemma_mul_nonnegative(l, iabs(c) + tdiv(l * iabs(d), SCALE as int));
    lemma_div_pos_is_pos(l * (iabs(c) + tdiv(l * iabs(d), SCALE as int)), SCALE as int);
    lemma_mul_nonnegative(l, iabs(b) + tdiv(l * (iabs(c) + tdiv(l * iabs(d), SCALE as int)),
        SCALE as int));
    lemma_div_pos_is_pos(l * (iabs(b) + tdiv(l * (iabs(c) + tdiv(l * iabs(d), SCALE as int)),
        SCALE as int)), SCALE as int);
}

/// The product of an arc's radius and sweep stays within the moderate
/// range: the curvature cancels between the two factors, leaving about the
/// element length times the scale.
proof fn lemma_arc_extent(k: int, l: int)
    requires
        10 <= iabs(k) <= MAX_CURV,
        0 <= l <= MAX_LEN,
    ensures
        iabs(arc_radius(k) * tdiv(l * k, SCALE as int)) <= 500_000_000_000_000_000_000_000_000,
{
    let ka = iabs(k);
    let ra = iabs(arc_radius(k));
    let sa = iabs(tdiv(l * k, SCALE as int));
    if k > 0 {
        lemma_tdiv_abs(SCALE * SCALE, k);
    } else {
        lemma_tdiv_abs(SCALE * SCALE, -k);
        assert(iabs(-tdiv(SCALE * SCALE, -k)) == iabs(tdiv(SCALE * SCALE, -k)));
    }
    vstd::arithmetic::div_mod::lemma_fundamental_div_mod(SCALE * SCALE, ka);
    vstd::arithmetic::div_mod::lemma_mod_pos_bound(SCALE * SCALE, ka);
    assert(ra * ka <= SCALE * SCALE) by (nonlinear_arith)
        requires
            ka * ra + (SCALE * SCALE) % ka == SCALE * SCALE,
            0 <= (SCALE * SCALE) % ka,
    ;
    lemma_tdiv_abs(l * k, SCALE as int);
    assert(iabs(l * k) == l * ka) by (nonlinear_arith)
        requires
            0 <= l,
            ka == iabs(k),
            iabs(l * k) == if l * k >= 0 { l * k } else { -(l * k) },
            iabs(k) == if k >= 0 { k } else { -k },
    ;
    vstd::arithmetic::div_mod::lemma_fundamental_div_mod(l * ka, SCALE as int);
    vstd::arithmetic::div_mod::lemma_mod_pos_bound(l * ka, SCALE as int);
    assert(sa * SCALE <= l * ka) by (nonlinear_arith)
        requires
            SCALE * sa + (l * ka) % (SCALE as int) == l * ka,
            0 <= (l * ka) % (SCALE as int),
    ;
    assert(ra * sa <= 500_000_000_000_000_000_000_000_000) by (nonlinear_arith)
        requires
            ra * ka <= SCALE * SCALE,
            sa * SCALE <= l * ka,
            0 <= ra,
            0 <= sa,
            10 <= ka,
            0 <= l <= MAX_LEN,
            SCALE == 1_000_000_000,
            MAX_LEN == 100_000_000_000_000,
    ;
    assert(iabs(arc_radius(k) * tdiv(l * k, SCALE as int)) == ra * sa) by (nonlinear_arith)
        requires
            ra == iabs(arc_radius(k)),
            sa == iabs(tdiv(l * k, SCALE as int)),
            iabs(arc_radius(k)) == if arc_radius(k) >= 0 { arc_radius(k) } else {
                -arc_radius(k)
            },
            iabs(tdiv(l * k, SCALE as int)) == if tdiv(l * k, SCALE as int) >= 0 {
                tdiv(l * k, SCALE as int)
            } else {
                -tdiv(l * k, SCALE as int)
            },
            iabs(arc_radius(k) * tdiv(l * k, SCALE as int)) == if arc_radius(k) * tdiv(
                l * k,
                SCALE as int,
            ) >= 0 {
                arc_radius(k) * tdiv(l * k, SCALE as int)
            } else {
                -(arc_radius(k) * tdiv(l * k, SCALE as int))
            },
    ;
}

/// The arc arm of the segment conversion.
#[verifier::rlimit(100)]
#[verifier::spinoff_prover]
fn arc_segment_exec(g: &Geometry, curvature: Curvature) -> (r: Segment)
    requires
        wf_geometry(*g),
        normalized_element(*g) == (GeometryElement::Arc { curvature }),
        iabs(curvature.nanos as int) >= 10,
    ensures
        r == as_segment_spec(*g),
        crate::types::wf_seg(r),
        crate::types::wf_moderate(r),
{
    let k: i64 = curvature.nanos;
    proof {
        lemma_arc_extent(k as int, g.length.nanos as int);
    }
    let r: i64 = if k > 0 {
        proof {
            lemma_tdiv_abs(SCALE * SCALE, k as int);
            vstd::arithmetic::div_mod::lemma_div_is_ordered_by_denominator(SCALE * SCALE, 10,
                k as int);
        }
        tdiv_i128((SCALE as i128) * (SCALE as i128), k as i128) as i64
    } else {
        proof {
            lemma_tdiv_abs(SCALE * SCALE, -(k as int));
            vstd::arithmetic::div_mod::lemma_div_is_ordered_by_denominator(SCALE * SCALE, 10,
                -(k as int));
        }
        -(tdiv_i128((SCALE as i128) * (SCALE as i128), -(k as i128)) as i64)
    };
    let rot: Rotation = Rotation::new(g.hdg);
    let w: (i64, i64) = rot.transform_vector(0, r);
    proof {
        lemma_mul_abs_bound(g.length.nanos as int, k as int, MAX_LEN as int, MAX_CURV as int);
        lemma_tdiv_bound(g.length.nanos as int * k, SCALE as int,
            400_000_000_000_000_000_000_000int);
    }
    let sweep: i64 = tdiv_i128((g.length.nanos as i128) * (k as i128), SCALE as i128) as i64;
    Segment::Arc(ArcSegment {
        center: Point2 {
            x: Length { nanos: g.x.nanos + w.0 },
            y: Length { nanos: g.y.nanos + w.1 },
        },
        rx: Length { nanos: r },
        ry: Length { nanos: r },
        start_angle: g.hdg,
        sweep_angle: Angle { nanos: sweep },
        x_rotation: Angle { nanos: -HALF_PI },
    })
}

/// The cubic-polynomial arm of the segment conversion.
#[verifier::rlimit(100)]
#[verifier::spinoff_prover]
fn poly3_segment_exec(g: &Geometry, a: i64, b: i64, c: i64, d: i64) -> (r: Segment)
    requires
        wf_geometry(*g),
        g.element == (GeometryElement::Poly3 { a, b, c, d }),
    ensures
        r == as_segment_spec(*g),
        crate::types::wf_seg(r),
        crate::types::wf_moderate(r),
{
    proof {
        lemma_poly3_power_coeffs(a as int, b as int, c as int, d as int,
            g.length.nanos as int);
        lemma_mul_abs_bound(b as int, g.length.nanos as int, MAX_POLY as int, MAX_LEN as int);
        lemma_mul_abs_bound(c as int, g.length.nanos as int, MAX_POLY as int, MAX_LEN as int);
        lemma_mul_abs_bound(d as int, g.length.nanos as int, MAX_POLY as int, MAX_LEN as int);
        lemma_tdiv_bound(c as int * g.length.nanos, SCALE as int,
            100_000_000_000_000_000_000_000_000int);
        lemma_tdiv_bound(d as int * g.length.nanos, SCALE as int,
            100_000_000_000_000_000_000_000_000int);
    }
    let l: i128 = g.length.nanos as i128;
    let pb: i64 = tdiv_i128((b as i128) * l, SCALE as i128) as i64;
    let xc: i128 = tdiv_i128((c as i128) * l, SCALE as i128);
    let pc: i64 = tdiv_i128(xc * l, SCALE as i128) as i64;
    let xd: i128 = tdiv_i128((d as i128) * l, SCALE as i128);
    proof {
        lemma_mul_abs_bound(tdiv(d as int * g.length.nanos, SCALE as int),
            g.length.nanos as int, 100_000_000_000_000_000int, MAX_LEN as int);
        lemma_tdiv_bound(tdiv(d as int * g.length.nanos, SCALE as int) * g.length.nanos,
            SCALE as int, 10_000_000_000_000_000_000_000_000_000_000int);
    }
    let yd: i128 = tdiv_i128(xd * l, SCALE as i128);
    let pd: i64 = tdiv_i128(yd * l, SCALE as i128) as i64;
    let x1: i64 = tdiv_i128(l, 3) as i64;
    let x2: i64 = tdiv_i128(2 * l, 3) as i64;
    let y0: i64 = a;
    let y1: i64 = a + (tdiv_i128(pb as i128, 3) as i64);
    let y2: i64 = a + (tdiv_i128(2 * (pb as i128), 3) as i64) + (tdiv_i128(pc as i128, 3) as i64);
    let y3: i64 = a + pb + pc + pd;
    let rot: Rotation = Rotation::new(g.hdg);
    let w0: (i64, i64) = rot.transform_vector(0, y0);
    let w1: (i64, i64) = rot.transform_vector(x1, y1);
    let w2: (i64, i64) = rot.transform_vector(x2, y2);
    let w3: (i64, i64) = rot.transform_vector(g.length.nanos, y3);
    Segment::Cubic(CubicBezier {
        from: Point2 {
            x: Length { nanos: g.x.nanos + w0.0 },
            y: Length { nanos: g.y.nanos + w0.1 },
        },
        ctrl1: Point2 {
            x: Length { nanos: g.x.nanos + w1.0 },
            y: Length { nanos: g.y.nanos + w1.1 },
        },
        ctrl2: Point2 {
            x: Length { nanos: g.x.nanos + w2.0 },
            y: Length { nanos: g.y.nanos + w2.1 },
        },
        to: Point2 {
            x: Length { nanos: g.x.nanos + w3.0 },
            y: Length { nanos: g.y.nanos + w3.1 },
        },
    })
}

impl Geometry {
    /// The segment form of the record, per [`as_segment_spec`].  The arc
    /// case needs a curvature of at least 1e-8 per meter, so that the
    /// radius fits the coordinate range; a zero-curvature arc is redirected
    /// to the line case before the test.
    #[verifier::rlimit(100)]
    #[verifier::spinoff_prover]
    pub fn as_segment(&self) -> (r: Segment)
        requires
            wf_geometry(*self),
            normalized_element(*self) matches GeometryElement::Arc { curvature } ==> iabs(
                curvature.nanos as int,
            ) >= 10,
        ensures
            r == as_segment_spec(*self),
            crate::types::wf_seg(r),
            crate::types::wf_moderate(r),
    {
        match normalized_exec(self) {
            GeometryElement::Line => {
                let p: Point2 = position_exec(self, self.length.nanos);
                Segment::Line(LineSegment { from: Point2 { x: self.x, y: self.y }, to: p })
            },
            GeometryElement::Arc { curvature } => arc_segment_exec(self, curvature),
            GeometryElement::Spiral { .. } => {
                let p: Point2 = position_exec(self, self.length.nanos);
                Segment::Line(LineSegment { from: Point2 { x: self.x, y: self.y }, to: p })
            },
            GeometryElement::Poly3 { a, b, c, d } => {
                proof {
                    assert(self.element == (GeometryElement::Poly3 { a, b, c, d }));
                }
                poly3_segment_exec(self, a, b, c, d)
            },
        }
    }

    /// The start state of the record: its declared position and heading.
    pub fn start_pose(&self) -> (p: Pose)
        ensures
            p.position.x == self.x,
            p.position.y == self.y,
            p.heading == self.hdg,
    {
        Pose { position: Point2 { x: self.x, y: self.y }, heading: self.hdg }
    }

    /// Whether the record is well formed: every check of [`wf_geometry`],
    /// executable, for callers that receive records from outside the core.
    pub fn is_well_formed(&self) -> (r: bool)
        ensures
            r == wf_geometry(*self),
    {
        let header_ok: bool = 0 <= self.s.nanos && self.s.nanos <= MAX_LEN && -MAX_COORD
            <= self.x.nanos && self.x.nanos <= MAX_COORD && -MAX_COORD <= self.y.nanos
            && self.y.nanos <= MAX_COORD && -MAX_ANG <= self.hdg.nanos && self.hdg.nanos
            <= MAX_ANG && 0 <= self.length.nanos && self.length.nanos <= MAX_LEN;
        if !header_ok {
            return false;
        }
        match self.element {
            GeometryElement::Line => true,
            GeometryElement::Spiral { curv_start, curv_end } => -MAX_CURV <= curv_start.nanos
                && curv_start.nanos <= MAX_CURV && -MAX_CURV <= curv_end.nanos
                && curv_end.nanos <= MAX_CURV,
            GeometryElement::Arc { curvature } => -MAX_CURV <= curvature.nanos
                && curvature.nanos <= MAX_CURV,
            GeometryElement::Poly3 { a, b, c, d } => {
                let coeffs_ok: bool = -MAX_POLY <= a && a <= MAX_POLY && -MAX_POLY <= b && b
                    <= MAX_POLY && -MAX_POLY <= c && c <= MAX_POLY && -MAX_POLY <= d && d
                    <= MAX_POLY;
                if !coeffs_ok {
                    return false;
                }
                let l: i128 = self.length.nanos as i128;
                let ad: i128 = if d >= 0 {
                    d as i128
                } else {
                    -(d as i128)
                };
                let ac: i128 = if c >= 0 {
                    c as i128
                } else {
                    -(c as i128)
                };
                let ab: i128 = if b >= 0 {
                    b as i128
                } else {
                    -(b as i128)
                };
                let aa: i128 = if a >= 0 {
                    a as i128
                } else {
                    -(a as i128)
                };
                proof {
                    lemma_mul_abs_bound(self.length.nanos as int, iabs(d as int),
                        MAX_LEN as int, MAX_POLY as int);
                    lemma_tdiv_bound(self.length.nanos as int * iabs(d as int), SCALE as int,
                        100_000_000_000_000_000_000_000_000int);
                }
                let m3: i128 = tdiv_i128(l * ad, SCALE as i128);
                proof {
                    lemma_mul_abs_bound(self.length.nanos as int, iabs(c as int) + m3,
                        MAX_LEN as int, 200_000_000_000_000_000int);
                    lemma_tdiv_bound(self.length.nanos as int * (iabs(c as int) + m3),
                        SCALE as int, 20_000_000_000_000_000_000_000_000_000_000int);
                }
                let m2: i128 = tdiv_i128(l * (ac + m3), SCALE as i128);
                proof {
                    lemma_mul_abs_bound(self.length.nanos as int, iabs(b as int) + m2,
                        MAX_LEN as int, 30_000_000_000_000_000_000_000int);
                    lemma_tdiv_bound(self.length.nanos as int * (iabs(b as int) + m2),
                        SCALE as int, 3_000_000_000_000_000_000_000_000_000_000_000_000int);
                }
                let m1: i128 = tdiv_i128(l * (ab + m2), SCALE as i128);
                aa + m1 <= MAX_SPAN as i128
            },
        }
    }
}

} // verus!
