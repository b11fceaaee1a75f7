//! Clock abstraction.

use crate::time::Duration;
use vstd::prelude::*;

verus! {

/// Abstraction over a monotonic clock.
///
/// ISO-TP needs a monotonically increasing time source to implement deadlines (N_As, N_Ar, ...)
/// and pacing (STmin).
pub trait Clock {
    /// Instant type produced by the clock.
    type Instant: Copy + PartialOrd;

    /// Current instant.
    fn now(&self) -> Self::Instant;

    /// Elapsed duration since an instant.
    fn elapsed(&self, earlier: Self::Instant) -> Duration;

    /// Add a duration to an instant (saturating if needed).
    fn add(&self, instant: Self::Instant, dur: Duration) -> Self::Instant;
}

/// `std::time::Instant`, which shows nothing of what is in it.
#[verifier::external_type_specification]
#[verifier::external_body]
pub struct ExStdInstant(std::time::Instant);

/// Reads the clock with `std::time::Instant::now`.
///
/// An instant shows nothing of itself, and two readings may differ: nothing is claimed of it.
#[verifier::external_body]
fn instant_now() -> std::time::Instant {
    std::time::Instant::now()
}

/// Time since `earlier` by `std::time::Instant::elapsed`, as seconds and nanoseconds.
///
/// A standard duration keeps its nanosecond part below one second. How much time has passed is up
/// to the clock, so nothing else is claimed.
#[verifier::external_body]
fn instant_elapsed(earlier: std::time::Instant) -> (r: (u64, u32))
    ensures
        r.1 < 1_000_000_000,
{
    let d = earlier.elapsed();
    (d.as_secs(), d.subsec_nanos())
}

/// `std::time::Instant::checked_add`, with the duration given as seconds and nanoseconds.
///
/// Which instants can be represented depends on the platform, and an instant shows nothing of
/// itself: of the sum nothing is claimed.
#[verifier::external_body]
fn instant_checked_add(instant: std::time::Instant, secs: u64, nanos: u32) -> Option<
    std::time::Instant,
>
    requires
        nanos < 1_000_000_000,
{
    instant.checked_add(core::time::Duration::new(secs, nanos))
}

/// Standard library clock wrapper.
#[derive(Clone, Copy, Debug)]
pub struct StdClock;

impl Default for StdClock {
    fn default() -> (r: Self)
        ensures
            r == StdClock,
    {
        StdClock
    }
}

impl StdClock {
    /// Whether an instant is a reading of the standard clock.
    pub closed spec fn is_reading(r: std::time::Instant) -> bool {
        call_ensures(instant_now, (), r)
    }

    /// Whether the standard clock measured this time since an instant.
    pub closed spec fn measured(earlier: std::time::Instant, r: Duration) -> bool {
        exists|secs: u64, nanos: u32|
            #[trigger] call_ensures(instant_elapsed, (earlier,), (secs, nanos)) && r@ == secs
                * 1_000_000_000 + nanos
    }

    /// Whether an instant is the sum of an instant and a duration, or the instant itself where
    /// the sum is none.
    pub closed spec fn is_sum(
        instant: std::time::Instant,
        dur: Duration,
        r: std::time::Instant,
    ) -> bool {
        exists|sum: Option<std::time::Instant>|
            #[trigger] call_ensures(
                instant_checked_add,
                (instant, (dur@ / 1_000_000_000) as u64, (dur@ % 1_000_000_000) as u32),
                sum,
            ) && r == (match sum {
                Some(later) => later,
                None => instant,
            })
    }
}

impl Clock for StdClock {
    type Instant = std::time::Instant;

    /// The current standard instant.
    fn now(&self) -> (r: std::time::Instant)
        ensures
            StdClock::is_reading(r),
    {
        instant_now()
    }

    /// Time since a standard instant.
    fn elapsed(&self, earlier: std::time::Instant) -> (r: Duration)
        ensures
            StdClock::measured(earlier, r),
    {
        let (secs, nanos): (u64, u32) = instant_elapsed(earlier);
        assert(call_ensures(instant_elapsed, (earlier,), (secs, nanos)));
        Duration::new(secs, nanos)
    }

    /// Checked addition; the instant itself when the sum cannot be represented.
    fn add(&self, instant: std::time::Instant, dur: Duration) -> (r: std::time::Instant)
        ensures
            StdClock::is_sum(instant, dur, r),
    {
        let secs: u64 = dur.as_secs();
        let nanos: u32 = dur.subsec_nanos();
        let sum = instant_checked_add(instant, secs, nanos);
        assert(call_ensures(instant_checked_add, (instant, secs, nanos), sum));
        match sum {
            Some(later) => later,
            None => instant,
        }
    }
}

} // verus!
