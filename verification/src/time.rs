//! Spans of time and readings of a monotonic clock, in nanoseconds.

use vstd::prelude::*;

verus! {

/// Nanoseconds in one millisecond.
pub const NANOS_PER_MILLI: u128 = 1_000_000;

/// Nanoseconds in one second.
pub const NANOS_PER_SEC: u128 = 1_000_000_000;

/// A span of time, or a reading of a monotonic clock counted from a moment that
/// its reader chose. The longest span of the standard library fits.
#[derive(Clone, Copy, Debug, PartialEq, Eq, Structural)]
pub struct Nanos(pub u128);

impl Nanos {
    /// What is left of `self` after `other`; nothing once `other` reaches it.
    pub open spec fn minus(self, other: Nanos) -> Nanos {
        if self.0 >= other.0 {
            Nanos((self.0 - other.0) as u128)
        } else {
            Nanos(0)
        }
    }

    /// The shorter of two spans.
    pub open spec fn shorter(self, other: Nanos) -> Nanos {
        if self.0 <= other.0 {
            self
        } else {
            other
        }
    }

    /// A span of whole seconds.
    pub fn from_secs(secs: u64) -> (span: Nanos)
        ensures
            span.0 == secs * 1_000_000_000,
    {
        Nanos(secs as u128 * NANOS_PER_SEC)
    }

    /// A span of whole milliseconds.
    pub fn from_millis(millis: u64) -> (span: Nanos)
        ensures
            span.0 == millis * 1_000_000,
    {
        Nanos(millis as u128 * NANOS_PER_MILLI)
    }

    /// Whether the span is empty.
    pub fn is_zero(self) -> (zero: bool)
        ensures
            zero == (self == Nanos(0)),
            zero == (self.0 == 0),
    {
        self.0 == 0
    }

    /// Subtracts, stopping at zero.
    pub fn saturating_sub(self, other: Nanos) -> (left: Nanos)
        ensures
            left == self.minus(other),
            self.0 >= other.0 ==> left.0 + other.0 == self.0,
            self.0 < other.0 ==> left.0 == 0,
    {
        if self.0 >= other.0 {
            Nanos(self.0 - other.0)
        } else {
            Nanos(0)
        }
    }

    /// The shorter of two spans.
    pub fn min(self, other: Nanos) -> (least: Nanos)
        ensures
            least == self.shorter(other),
            least.0 <= self.0 && least.0 <= other.0,
            least == self || least == other,
    {
        if self.0 <= other.0 {
            self
        } else {
            other
        }
    }

    /// Half of the span, rounded down to a nanosecond.
    pub fn half(self) -> (half: Nanos)
        ensures
            half.0 == self.0 / 2,
    {
        Nanos(self.0 / 2)
    }
}

/// Taking a span off another leaves what makes up the first together with it, and nothing if
/// it reaches beyond. Nothing is left exactly when it reaches as far.
pub proof fn law_what_is_left_makes_up_the_whole(whole: Nanos, part: Nanos)
    ensures
        part.0 <= whole.0 ==> whole.minus(part).0 + part.0 == whole.0,
        part.0 > whole.0 ==> whole.minus(part).0 == 0,
        whole.minus(part) == Nanos(0) <==> part.0 >= whole.0,
{
}

/// The shorter of two spans is one of them, and neither is shorter than it.
pub proof fn law_shorter_is_the_least(first: Nanos, second: Nanos)
    ensures
        first.shorter(second) == first || first.shorter(second) == second,
        first.shorter(second).0 <= first.0,
        first.shorter(second).0 <= second.0,
{
}

} // verus!
