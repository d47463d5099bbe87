//! Spans of time, counted in nanoseconds.

use vstd::prelude::*;

verus! {

/// Nanoseconds in a millisecond.
pub const NANOS_PER_MILLI: u128 = 1_000_000;

/// A span of time.
#[derive(Clone, Copy, Debug, PartialEq, Eq, Structural)]
pub struct Span {
    pub nanos: u128,
}

impl Span {
    /// The sum of two spans, or the longest span where the sum is more than
    /// a span can hold.
    pub open spec fn plus(self, other: Span) -> Span {
        if self.nanos + other.nanos <= u128::MAX {
            Span { nanos: (self.nanos + other.nanos) as u128 }
        } else {
            Span { nanos: u128::MAX }
        }
    }

    /// Adds two spans, stopping at the longest span.
    pub fn saturating_add(self, other: Span) -> (sum: Span)
        ensures
            sum == self.plus(other),
    {
        if self.nanos <= u128::MAX - other.nanos {
            Span { nanos: self.nanos + other.nanos }
        } else {
            Span { nanos: u128::MAX }
        }
    }

    /// The empty span.
    pub fn zero() -> (span: Span)
        ensures
            span.nanos == 0,
    {
        Span { nanos: 0 }
    }

    /// The span of `millis` milliseconds.
    pub fn from_millis(millis: u64) -> (span: Span)
        ensures
            span.nanos == millis * NANOS_PER_MILLI,
    {
        let wide: u128 = millis as u128;
        assert(wide * NANOS_PER_MILLI <= u128::MAX) by (nonlinear_arith)
            requires
                wide <= u64::MAX,
                NANOS_PER_MILLI == 1_000_000,
        ;
        Span { nanos: wide * NANOS_PER_MILLI }
    }
}

} // verus!
