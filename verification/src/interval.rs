//! Half-open time intervals `[start, end)` and their overlap test.
//!
//! Two intervals overlap iff each one starts before the other ends; intervals
//! that merely touch (`a.end == b.start`) do not overlap, so back-to-back
//! bookings are allowed.

use vstd::prelude::*;

verus! {

/// A half-open interval `[start, end)` over integer timestamps.
#[derive(Clone, Copy, PartialEq, Eq, Structural, Debug)]
pub struct Interval {
    pub start: i64,
    pub end: i64,
}

impl Interval {
    /// A well-formed interval is non-empty: it starts strictly before it ends.
    pub open spec fn is_valid(self) -> bool {
        self.start < self.end
    }

    /// Half-open overlap: `[s1,e1)` and `[s2,e2)` overlap iff `s1 < e2 && s2 < e1`.
    pub open spec fn overlaps_spec(self, other: Interval) -> bool {
        self.start < other.end && other.start < self.end
    }

    /// Executable overlap test for half-open intervals.
    pub fn overlaps(&self, other: &Interval) -> (r: bool)
        ensures
            r == self.overlaps_spec(*other),
    {
        self.start < other.end && other.start < self.end
    }
}

/// Intervals that merely touch do not overlap: if `a` ends exactly where `b`
/// starts, the two never conflict, so back-to-back claims coexist.
pub proof fn lemma_back_to_back(a: Interval, b: Interval)
    requires
        a.is_valid(),
        b.is_valid(),
        a.end == b.start,
    ensures
        !a.overlaps_spec(b),
        !b.overlaps_spec(a),
{
}

} // verus!
