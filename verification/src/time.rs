//! Spans of time, counted in nanoseconds.
use vstd::prelude::*;

verus! {

/// A span of time of at most `u64::MAX` seconds and 999,999,999 nanoseconds.
#[derive(Clone, Copy, Debug, PartialEq, Eq, Structural)]
pub struct Duration {
    nanos: u128,
}

/// The longest span, in nanoseconds.
pub open spec fn longest_nanos() -> int {
    u64::MAX * 1_000_000_000 + 999_999_999
}

impl View for Duration {
    type V = nat;

    /// The span in nanoseconds.
    closed spec fn view(&self) -> nat {
        self.nanos as nat
    }
}

impl Duration {
    #[verifier::type_invariant]
    spec fn in_range(self) -> bool {
        self.nanos <= longest_nanos()
    }

    /// A span of `secs` seconds and `nanos` nanoseconds.
    pub fn new(secs: u64, nanos: u32) -> (span: Self)
        requires
            nanos < 1_000_000_000,
        ensures
            span@ == secs * 1_000_000_000 + nanos,
    {
        Duration { nanos: secs as u128 * 1_000_000_000 + nanos as u128 }
    }

    /// The empty span.
    pub fn zero() -> (span: Self)
        ensures
            span@ == 0,
    {
        Duration { nanos: 0 }
    }

    pub fn from_secs(secs: u64) -> (span: Self)
        ensures
            span@ == secs * 1_000_000_000,
    {
        Duration { nanos: secs as u128 * 1_000_000_000 }
    }

    pub fn from_millis(millis: u64) -> (span: Self)
        ensures
            span@ == millis * 1_000_000,
    {
        Duration { nanos: millis as u128 * 1_000_000 }
    }

    /// The whole seconds of the span.
    pub fn as_secs(&self) -> (secs: u64)
        ensures
            secs == self@ / 1_000_000_000,
    {
        proof {
            use_type_invariant(self);
        }
        (self.nanos / 1_000_000_000) as u64
    }

    /// The nanoseconds beyond the whole seconds of the span.
    pub fn subsec_nanos(&self) -> (nanos: u32)
        ensures
            nanos == self@ % 1_000_000_000,
    {
        (self.nanos % 1_000_000_000) as u32
    }

    pub fn is_zero(&self) -> (empty: bool)
        ensures
            empty == (self@ == 0),
    {
        self.nanos == 0
    }

    pub fn shorter_than(&self, other: Duration) -> (shorter: bool)
        ensures
            shorter == (self@ < other@),
    {
        self.nanos < other.nanos
    }

    /// The longer one of two spans.
    pub fn max(self, other: Duration) -> (longer: Duration)
        ensures
            longer@ == if self@ < other@ {
                other@
            } else {
                self@
            },
    {
        if self.nanos < other.nanos {
            other
        } else {
            self
        }
    }

    /// What is left of the span when `other` has passed; `None` if `other` is longer.
    pub fn checked_sub(self, other: Duration) -> (rest: Option<Duration>)
        ensures
            rest is Some <==> other@ <= self@,
            rest matches Some(r) ==> r@ == self@ - other@,
    {
        proof {
            use_type_invariant(&self);
        }
        if other.nanos <= self.nanos {
            Some(Duration { nanos: self.nanos - other.nanos })
        } else {
            None
        }
    }

    /// The two spans together; `None` if that is longer than a span can be.
    pub fn checked_add(self, other: Duration) -> (sum: Option<Duration>)
        ensures
            sum is Some <==> self@ + other@ <= longest_nanos(),
            sum matches Some(s) ==> s@ == self@ + other@,
    {
        proof {
            use_type_invariant(&self);
            use_type_invariant(&other);
        }
        let sum: u128 = self.nanos + other.nanos;
        if sum <= 18_446_744_073_709_551_615_999_999_999 {
            Some(Duration { nanos: sum })
        } else {
            None
        }
    }
}

/// Spans of the same length are the same span.
pub proof fn span_is_its_length(a: Duration, b: Duration)
    requires
        a@ == b@,
    ensures
        a == b,
{
}

} // verus!
