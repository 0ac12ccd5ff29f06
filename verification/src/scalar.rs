//! Fixed-point scalar types and the integer arithmetic they rest on.
//!
//! One unit is 1e-9 of the carried dimension (meter or radian), so a
//! `Length` of one meter holds `1_000_000_000` in its `nanos` field.  All
//! derived quantities are computed with truncating (round-toward-zero)
//! division, whose exact behaviour is captured by the spec function [`tdiv`].

use vstd::arithmetic::div_mod::{
    lemma_div_is_ordered, lemma_div_nonincreasing, lemma_div_pos_is_pos,
};
use vstd::prelude::*;

verus! {

/// Fixed-point units in one meter (or one radian).
pub const SCALE: i64 = 1_000_000_000;

/// Largest coordinate magnitude the model admits: 1e8 meters.
pub const MAX_COORD: i64 = 100_000_000_000_000_000;

/// Largest element length / arc-length offset: 1e5 meters.
pub const MAX_LEN: i64 = 100_000_000_000_000;

/// Largest heading magnitude: 1e4 radians.
pub const MAX_ANG: i64 = 10_000_000_000_000;

/// Largest curvature magnitude: 4 per meter (radius down to 0.25 m).
pub const MAX_CURV: i64 = 4_000_000_000;

/// Largest magnitude of one cubic-polynomial coefficient: 1e3 in the
/// coefficient's unit.
pub const MAX_POLY: i64 = 1_000_000_000_000;

/// Largest lateral magnitude a polynomial shape may span within one
/// element: 4e7 meters.
pub const MAX_SPAN: i64 = 40_000_000_000_000_000;

/// Largest magnitude of a computed point coordinate (5e8 meters): schema
/// coordinates stay within [`MAX_COORD`]; evaluated and control points get
/// this wider range.
pub const MAX_PT: i64 = 500_000_000_000_000_000;

/// Largest sweep angle of an arc segment: 1e6 radians.
pub const MAX_SWEEP: i64 = 1_000_000_000_000_000;

/// Default tolerance for position, heading and length comparisons:
/// 1e-6 meter or radian.
pub const TOL: i64 = 1000;

/// Absolute value over mathematical integers.
pub open spec fn iabs(a: int) -> int {
    if a >= 0 {
        a
    } else {
        -a
    }
}

/// Truncating (round-toward-zero) division, the semantics of every
/// fixed-point division in this crate.  Defined for positive divisors.
pub open spec fn tdiv(a: int, d: int) -> int {
    if a >= 0 {
        a / d
    } else {
        -((-a) / d)
    }
}

/// The magnitude of a truncating quotient is the floor quotient of the
/// magnitude.
pub proof fn lemma_tdiv_abs(a: int, d: int)
    requires
        d > 0,
    ensures
        iabs(tdiv(a, d)) == iabs(a) / d,
        iabs(tdiv(a, d)) <= iabs(a),
{
    if a >= 0 {
        lemma_div_pos_is_pos(a, d);
        lemma_div_nonincreasing(a, d);
    } else {
        lemma_div_pos_is_pos(-a, d);
        lemma_div_nonincreasing(-a, d);
    }
}

/// Truncating division by a positive divisor never grows a bound on the
/// dividend's magnitude.
pub proof fn lemma_tdiv_bound(a: int, d: int, m: int)
    requires
        d > 0,
        iabs(a) <= m,
    ensures
        iabs(tdiv(a, d)) <= m / d,
        iabs(tdiv(a, d)) <= m,
{
    lemma_tdiv_abs(a, d);
    lemma_div_is_ordered(iabs(a), m, d);
    lemma_div_nonincreasing(m, d);
}

/// A product of bounded factors is bounded by the product of the bounds.
pub proof fn lemma_mul_abs_bound(a: int, b: int, ma: int, mb: int)
    by (nonlinear_arith)
    requires
        iabs(a) <= ma,
        iabs(b) <= mb,
    ensures
        iabs(a * b) <= ma * mb,
{
}

/// Truncating division of an `i128` by a positive divisor.
///
/// The sign handling goes through `u128` so that the executable quotient
/// coincides with [`tdiv`] on every input.
pub fn tdiv_i128(a: i128, d: i128) -> (r: i128)
    requires
        d > 0,
        a > i128::MIN,
    ensures
        r == tdiv(a as int, d as int),
        iabs(r as int) <= iabs(a as int),
{
    proof {
        lemma_tdiv_abs(a as int, d as int);
    }
    if a >= 0 {
        let q: u128 = (a as u128) / (d as u128);
        q as i128
    } else {
        let n: i128 = -a;
        let q: u128 = (n as u128) / (d as u128);
        -(q as i128)
    }
}

/// `Length`: a distance in nanometers (1e-9 m), exact fixed point.
///
/// The wrapped value is the number of 1e-9 meter units; it is never
/// implicitly interchangeable with a raw number or with an [`Angle`].
#[derive(Clone, Copy, Debug, PartialEq, Eq, Structural, Hash)]
pub struct Length {
    pub nanos: i64,
}

impl Length {
    /// Wrap a raw count of 1e-9 meter units.
    pub fn from_nanos(n: i64) -> (r: Length)
        ensures
            r.nanos == n,
    {
        Length { nanos: n }
    }

    /// A zero distance.
    pub fn zero() -> (r: Length)
        ensures
            r.nanos == 0,
    {
        Length { nanos: 0 }
    }

    /// Exact sum, `None` when the sum leaves the representable range.
    pub fn checked_add(self, other: Length) -> (r: Option<Length>)
        ensures
            match r {
                Some(s) => s.nanos == self.nanos + other.nanos,
                None => !(i64::MIN <= self.nanos + other.nanos <= i64::MAX),
            },
    {
        match self.nanos.checked_add(other.nanos) {
            Some(n) => Some(Length { nanos: n }),
            None => None,
        }
    }

    /// Exact difference, `None` when it leaves the representable range.
    pub fn checked_sub(self, other: Length) -> (r: Option<Length>)
        ensures
            match r {
                Some(s) => s.nanos == self.nanos - other.nanos,
                None => !(i64::MIN <= self.nanos - other.nanos <= i64::MAX),
            },
    {
        match self.nanos.checked_sub(other.nanos) {
            Some(n) => Some(Length { nanos: n }),
            None => None,
        }
    }

    /// Scaling by a dimensionless fixed-point factor (`factor` counts 1e-9
    /// units of one), truncated toward zero.
    pub fn scaled(self, factor: i64) -> (r: Option<Length>)
        ensures
            match r {
                Some(s) => s.nanos == tdiv(self.nanos * factor, SCALE as int),
                None => !(i64::MIN < tdiv(self.nanos * factor, SCALE as int) <= i64::MAX),
            },
    {
        proof {
            lemma_mul_abs_bound(self.nanos as int, factor as int, 0x8000_0000_0000_0000,
                0x8000_0000_0000_0000);
        }
        let wide: i128 = (self.nanos as i128) * (factor as i128);
        let q: i128 = tdiv_i128(wide, SCALE as i128);
        if q <= i64::MAX as i128 && q > i64::MIN as i128 {
            Some(Length { nanos: q as i64 })
        } else {
            None
        }
    }
}

/// `Angle`: a direction or rotation in 1e-9 radian units, exact fixed point.
#[derive(Clone, Copy, Debug, PartialEq, Eq, Structural, Hash)]
pub struct Angle {
    pub nanos: i64,
}

impl Angle {
    /// Wrap a raw count of 1e-9 radian units.
    pub fn from_nanos(n: i64) -> (r: Angle)
        ensures
            r.nanos == n,
    {
        Angle { nanos: n }
    }

    /// A zero angle.
    pub fn zero() -> (r: Angle)
        ensures
            r.nanos == 0,
    {
        Angle { nanos: 0 }
    }

    /// Exact sum, `None` when the sum leaves the representable range.
    pub fn checked_add(self, other: Angle) -> (r: Option<Angle>)
        ensures
            match r {
                Some(s) => s.nanos == self.nanos + other.nanos,
                None => !(i64::MIN <= self.nanos + other.nanos <= i64::MAX),
            },
    {
        match self.nanos.checked_add(other.nanos) {
            Some(n) => Some(Angle { nanos: n }),
            None => None,
        }
    }
}

/// `Curvature`: the reciprocal of a radius, in 1e-9 per-meter units.
/// The sign encodes the turn direction: positive turns left.
#[derive(Clone, Copy, Debug, PartialEq, Eq, Structural, Hash)]
pub struct Curvature {
    pub nanos: i64,
}

impl Curvature {
    /// Wrap a raw count of 1e-9 per-meter units.
    pub fn from_nanos(n: i64) -> (r: Curvature)
        ensures
            r.nanos == n,
    {
        Curvature { nanos: n }
    }

    /// A zero curvature (a straight course).
    pub fn zero() -> (r: Curvature)
        ensures
            r.nanos == 0,
    {
        Curvature { nanos: 0 }
    }
}

/// A well-formed length: nonnegative and within the modeled range.
pub open spec fn wf_len(l: Length) -> bool {
    0 <= l.nanos <= MAX_LEN
}

/// A well-formed coordinate value.
pub open spec fn wf_coord(n: int) -> bool {
    -MAX_COORD <= n <= MAX_COORD
}

/// A well-formed heading.
pub open spec fn wf_ang(a: Angle) -> bool {
    -MAX_ANG <= a.nanos <= MAX_ANG
}

/// A well-formed curvature.
pub open spec fn wf_curv(k: Curvature) -> bool {
    -MAX_CURV <= k.nanos <= MAX_CURV
}

/// The floor of the square root of a nonnegative integer, as a spec value:
/// the unique `r >= 0` with `r^2 <= n < (r+1)^2`.
pub open spec fn sqrt_floor(n: int) -> int {
    choose|r: int| 0 <= r && #[trigger] (r * r) <= n && n < (r + 1) * (r + 1)
}

/// Any value with the floor-square-root property is the floor square root.
pub proof fn lemma_sqrt_floor_of(n: int, r: int)
    requires
        0 <= r,
        r * r <= n,
        n < (r + 1) * (r + 1),
    ensures
        sqrt_floor(n) == r,
{
    assert(exists|x: int| 0 <= x && #[trigger] (x * x) <= n && n < (x + 1) * (x + 1));
    let rc = sqrt_floor(n);
    assert(rc == r) by (nonlinear_arith)
        requires
            0 <= r,
            r * r <= n,
            n < (r + 1) * (r + 1),
            0 <= rc,
            rc * rc <= n,
            n < (rc + 1) * (rc + 1),
    ;
}

/// Floor of the square root, for distance magnitudes and clothoid scales.
pub fn isqrt_u128(n: u128) -> (r: u128)
    ensures
        r * r <= n,
        n < (r + 1) * (r + 1),
        r as int == sqrt_floor(n as int),
{
    let mut lo: u128 = 0;
    let mut hi: u128 = 0x1_0000_0000_0000_0000u128;
    proof {
        assert((hi as int) * (hi as int) > u128::MAX as int) by (nonlinear_arith)
            requires
                hi == 0x1_0000_0000_0000_0000u128,
        ;
    }
    while lo + 1 < hi
        invariant
            lo < hi <= 0x1_0000_0000_0000_0000u128,
            (lo as int) * (lo as int) <= n as int,
            (hi as int) * (hi as int) > n as int,
        decreases hi - lo,
    {
        let mid: u128 = lo + (hi - lo) / 2;
        assert(mid * mid <= u128::MAX) by (nonlinear_arith)
            requires
                mid < 0x1_0000_0000_0000_0000u128,
        ;
        if mid * mid <= n {
            lo = mid;
        } else {
            hi = mid;
        }
    }
    proof {
        assert((lo + 1) as int * ((lo + 1) as int) >= (hi as int) * (hi as int))
            by (nonlinear_arith)
            requires
                lo + 1 >= hi,
                hi >= 1,
        ;
        lemma_sqrt_floor_of(n as int, lo as int);
    }
    lo
}

} // verus!
