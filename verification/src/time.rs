//! Spans of time, as a count of nanoseconds with the range of the standard library's `Duration`.

use vstd::prelude::*;

verus! {

/// The longest representable span: `u64::MAX` seconds and 999,999,999 nanoseconds.
pub const MAX_NANOS: u128 = 18_446_744_073_709_551_615_999_999_999;

pub const NANOS_PER_SEC: u128 = 1_000_000_000;

pub const NANOS_PER_MILLI: u128 = 1_000_000;

/// A span of time, or a point on a monotonic clock measured from an arbitrary origin.
#[derive(Debug, Clone, Copy, PartialEq, Eq, Structural)]
pub struct Duration {
    nanos: u128,
}

impl View for Duration {
    type V = int;

    /// The span in nanoseconds.
    closed spec fn view(&self) -> int {
        self.nanos as int
    }
}

/// The sum of two spans, cut off at the longest representable one.
pub open spec fn saturating_nanos(left: int, right: int) -> int {
    if left + right <= MAX_NANOS {
        left + right
    } else {
        MAX_NANOS as int
    }
}

/// How the standard library's `Duration` writes itself for debugging: a number with a unit, such
/// as `1.5s`.  Which digits and which unit that are is left open here.
pub uninterp spec fn duration_text(secs: u64, subsec_nanos: u32) -> Seq<char>;

/// Calls the `Debug` form of `std::time::Duration` through `format!`.  The contract says only that
/// the text is determined by the seconds and the fraction.
#[verifier::external_body]
fn debug_duration(secs: u64, subsec_nanos: u32) -> (text: String)
    requires
        subsec_nanos < NANOS_PER_SEC,
    ensures
        text@ == duration_text(secs, subsec_nanos),
{
    format!("{:?}", std::time::Duration::new(secs, subsec_nanos))
}

/// The text of a span in messages.
pub open spec fn span_text(nanos: int) -> Seq<char> {
    duration_text(
        (nanos / (NANOS_PER_SEC as int)) as u64,
        (nanos % (NANOS_PER_SEC as int)) as u32,
    )
}

impl Duration {
    #[verifier::type_invariant]
    spec fn in_range(self) -> bool {
        self.nanos <= MAX_NANOS
    }

    /// Two spans of equal length are the same value.
    pub broadcast proof fn lemma_view_injective(left: Duration, right: Duration)
        ensures
            #[trigger] left@ == #[trigger] right@ ==> left == right,
    {
    }

    pub fn zero() -> (span: Duration)
        ensures
            span@ == 0,
    {
        Duration { nanos: 0 }
    }

    pub fn from_secs(secs: u64) -> (span: Duration)
        ensures
            span@ == secs * NANOS_PER_SEC,
    {
        Duration { nanos: secs as u128 * NANOS_PER_SEC }
    }

    pub fn from_millis(millis: u64) -> (span: Duration)
        ensures
            span@ == millis * NANOS_PER_MILLI,
    {
        Duration { nanos: millis as u128 * NANOS_PER_MILLI }
    }

    /// The span of a whole number of seconds and a fraction given in nanoseconds.
    pub fn from_parts(secs: u64, subsec_nanos: u32) -> (span: Duration)
        requires
            subsec_nanos < NANOS_PER_SEC,
        ensures
            span@ == secs * NANOS_PER_SEC + subsec_nanos,
    {
        Duration { nanos: secs as u128 * NANOS_PER_SEC + subsec_nanos as u128 }
    }

    pub fn as_nanos(&self) -> (nanos: u128)
        ensures
            nanos == self@,
            nanos <= MAX_NANOS,
    {
        proof {
            use_type_invariant(self);
        }
        self.nanos
    }

    pub fn as_millis(&self) -> (millis: u128)
        ensures
            millis == self@ / (NANOS_PER_MILLI as int),
    {
        proof {
            use_type_invariant(self);
        }
        self.nanos / NANOS_PER_MILLI
    }

    /// The whole seconds of the span.
    pub fn as_secs(&self) -> (secs: u64)
        ensures
            secs == self@ / (NANOS_PER_SEC as int),
    {
        proof {
            use_type_invariant(self);
        }
        (self.nanos / NANOS_PER_SEC) as u64
    }

    /// The span's text in messages.
    pub fn text(&self) -> (text: String)
        ensures
            text@ == span_text(self@),
    {
        proof {
            use_type_invariant(self);
        }
        let secs: u64 = (self.nanos / NANOS_PER_SEC) as u64;
        let subsec_nanos: u32 = (self.nanos % NANOS_PER_SEC) as u32;
        debug_duration(secs, subsec_nanos)
    }

    pub fn is_zero(&self) -> (zero: bool)
        ensures
            zero == (self@ == 0),
            !zero ==> self@ > 0,
    {
        self.nanos == 0
    }

    /// Whether the span is strictly longer than the other one.
    pub fn exceeds(&self, other: &Duration) -> (longer: bool)
        ensures
            longer == (self@ > other@),
    {
        self.nanos > other.nanos
    }

    pub fn saturating_add(&self, other: Duration) -> (sum: Duration)
        ensures
            sum@ == saturating_nanos(self@, other@),
    {
        proof {
            use_type_invariant(self);
            use_type_invariant(&other);
        }
        if self.nanos <= MAX_NANOS - other.nanos {
            Duration { nanos: self.nanos + other.nanos }
        } else {
            Duration { nanos: MAX_NANOS }
        }
    }

    /// The difference of two spans, zero where the other one is longer.
    pub fn saturating_sub(&self, other: Duration) -> (difference: Duration)
        ensures
            difference@ == (if self@ >= other@ {
                self@ - other@
            } else {
                0
            }),
    {
        proof {
            use_type_invariant(self);
        }
        if self.nanos >= other.nanos {
            Duration { nanos: self.nanos - other.nanos }
        } else {
            Duration { nanos: 0 }
        }
    }
}

} // verus!
