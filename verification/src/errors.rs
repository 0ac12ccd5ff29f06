//! Validation failures of a road's reference line.

use crate::scalar::{Angle, Length};
use vstd::prelude::*;

verus! {

/// Why a plan view failed validation.  Each validation check stops at the
/// first violation and reports it exactly.
#[derive(Clone, Copy, Debug, PartialEq, Eq, Structural, Hash)]
pub enum ValidationError {
    /// The arc-length offsets of the geometry records are not in order;
    /// `index` is the first record whose `s` is smaller than its
    /// predecessor's.
    NonMonotonicArcLength { index: usize },
    /// Adjacent primitives do not meet: the pose evaluated at the end of
    /// record `index - 1` differs from the declared start pose of record
    /// `index` by more than the tolerance.  The measured gaps are reported:
    /// the position gap as a straight-line distance (rounded down to a
    /// whole 1e-9 meter), the heading gap as a magnitude after wrapping to
    /// within half a turn (headings whole turns apart count as equal).
    DiscontinuousReferenceLine { index: usize, position_gap: Length, heading_gap: Angle },
    /// The primitive lengths do not add up to the declared road length
    /// within tolerance.
    LengthMismatch { declared: Length, computed: Length },
}

} // verus!
