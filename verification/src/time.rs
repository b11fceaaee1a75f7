//! Spans of time with nanosecond resolution.

use vstd::prelude::*;

verus! {

/// Longest span that can be held, in nanoseconds: `u64::MAX` seconds and 999 999 999 nanoseconds.
pub const MAX_NANOS: u128 = 18_446_744_073_709_551_615_999_999_999;

/// A non-negative span of time; its view is its length in nanoseconds.
#[derive(Clone, Copy, Debug, PartialEq, Eq, PartialOrd, Ord, Hash, Structural)]
pub struct Duration {
    nanos: u128,
}

impl View for Duration {
    type V = nat;

    closed spec fn view(&self) -> nat {
        self.nanos as nat
    }
}

/// The span of so many nanoseconds.
pub closed spec fn span(nanos: nat) -> Duration {
    Duration { nanos: nanos as u128 }
}

/// A span of given length is determined by that length.
pub proof fn span_has_its_length(nanos: nat)
    requires
        nanos <= MAX_NANOS,
    ensures
        span(nanos)@ == nanos,
{
}

impl Duration {
    #[verifier::type_invariant]
    spec fn in_range(self) -> bool {
        self.nanos <= MAX_NANOS
    }

    /// A span of `secs` seconds and `nanos` nanoseconds (`nanos` below one second).
    pub fn new(secs: u64, nanos: u32) -> (d: Duration)
        requires
            nanos < 1_000_000_000,
        ensures
            d@ == secs as nat * 1_000_000_000 + nanos as nat,
    {
        Duration { nanos: secs as u128 * 1_000_000_000 + nanos as u128 }
    }

    /// A span of whole seconds.
    pub fn from_secs(secs: u64) -> (d: Duration)
        ensures
            d@ == secs as nat * 1_000_000_000,
    {
        Duration { nanos: secs as u128 * 1_000_000_000 }
    }

    /// A span of whole milliseconds.
    pub fn from_millis(millis: u64) -> (d: Duration)
        ensures
            d@ == millis as nat * 1_000_000,
    {
        Duration { nanos: millis as u128 * 1_000_000 }
    }

    /// A span of whole microseconds.
    pub fn from_micros(micros: u64) -> (d: Duration)
        ensures
            d@ == micros as nat * 1_000,
    {
        Duration { nanos: micros as u128 * 1_000 }
    }

    /// A span of whole nanoseconds.
    pub fn from_nanos(nanos: u64) -> (d: Duration)
        ensures
            d@ == nanos as nat,
    {
        Duration { nanos: nanos as u128 }
    }

    /// Length in nanoseconds.
    pub fn as_nanos(&self) -> (n: u128)
        ensures
            n == self@,
            n <= MAX_NANOS,
    {
        proof {
            use_type_invariant(self);
        }
        self.nanos
    }

    /// Length in whole microseconds, rounded down.
    pub fn as_micros(&self) -> (n: u128)
        ensures
            n == self@ / 1_000,
    {
        self.nanos / 1_000
    }

    /// Length in whole milliseconds, rounded down.
    pub fn as_millis(&self) -> (n: u128)
        ensures
            n == self@ / 1_000_000,
    {
        self.nanos / 1_000_000
    }

    /// Length in whole seconds, rounded down.
    pub fn as_secs(&self) -> (n: u64)
        ensures
            n == self@ / 1_000_000_000,
    {
        proof {
            use_type_invariant(self);
        }
        (self.nanos / 1_000_000_000) as u64
    }

    /// Nanoseconds past the last whole second.
    pub fn subsec_nanos(&self) -> (n: u32)
        ensures
            n == self@ % 1_000_000_000,
    {
        (self.nanos % 1_000_000_000) as u32
    }

    /// Whether the span is empty.
    pub fn is_zero(&self) -> (r: bool)
        ensures
            r == (self@ == 0),
    {
        self.nanos == 0
    }

    /// Whether this span is strictly shorter than `other`.
    pub fn shorter_than(&self, other: Duration) -> (r: bool)
        ensures
            r == (self@ < other@),
    {
        self.nanos < other.nanos
    }

    /// What is left of the span after taking `other` away, or `None` if `other` is longer.
    pub fn checked_sub(self, other: Duration) -> (r: Option<Duration>)
        ensures
            match r {
                Some(d) => other@ <= self@ && d@ == self@ - other@,
                None => self@ < other@,
            },
    {
        proof {
            use_type_invariant(&self);
        }
        if other.nanos <= self.nanos {
            Some(Duration { nanos: self.nanos - other.nanos })
        } else {
            None
        }
    }

    /// The shorter of two spans.
    pub fn shorter(self, other: Duration) -> (r: Duration)
        ensures
            r == (if other@ < self@ { other } else { self }),
    {
        if other.nanos < self.nanos {
            other
        } else {
            self
        }
    }
}

/// Two spans of the same length are the same value.
pub proof fn equal_lengths_are_equal(a: Duration, b: Duration)
    requires
        a@ == b@,
    ensures
        a == b,
{
}

/// Spans are made of seconds, milliseconds, microseconds and nanoseconds, and measured in them
/// rounded down.
pub proof fn spans_have_units(
    n: u64,
    secs: Duration,
    millis: Duration,
    micros: Duration,
    nanos: Duration,
    d: &Duration,
    whole: (u64, u128, u128, u128),
    rest: u32,
)
    requires
        call_ensures(Duration::from_secs, (n,), secs),
        call_ensures(Duration::from_millis, (n,), millis),
        call_ensures(Duration::from_micros, (n,), micros),
        call_ensures(Duration::from_nanos, (n,), nanos),
        call_ensures(Duration::as_secs, (d,), whole.0),
        call_ensures(Duration::as_millis, (d,), whole.1),
        call_ensures(Duration::as_micros, (d,), whole.2),
        call_ensures(Duration::as_nanos, (d,), whole.3),
        call_ensures(Duration::subsec_nanos, (d,), rest),
    ensures
        secs@ == n * 1_000_000_000 && millis@ == n * 1_000_000 && micros@ == n * 1_000 && nanos@
            == n,
        whole.0 * 1_000_000_000 + rest == d@ && rest < 1_000_000_000,
        whole.1 * 1_000_000 <= d@ < whole.1 * 1_000_000 + 1_000_000,
        whole.2 * 1_000 <= d@ < whole.2 * 1_000 + 1_000,
        whole.3 == d@,
{
}

/// Spans are compared and taken away from each other by their lengths.
pub proof fn spans_are_compared(
    a: Duration,
    b: Duration,
    less: bool,
    least: Duration,
    rest: Option<Duration>,
    none: bool,
)
    requires
        call_ensures(Duration::shorter_than, (&a, b), less),
        call_ensures(Duration::shorter, (a, b), least),
        call_ensures(Duration::checked_sub, (a, b), rest),
        call_ensures(Duration::is_zero, (&a,), none),
    ensures
        less <==> a@ < b@,
        least@ <= a@ && least@ <= b@ && (least == a || least == b),
        rest is Some <==> b@ <= a@,
        rest matches Some(d) ==> d@ + b@ == a@,
        none <==> a@ == 0,
{
}

} // verus!
