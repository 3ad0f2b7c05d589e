//! Time as the limiters see it.
//!
//! A duration is a count of nanoseconds no larger than [`MAX_DURATION`]. A point in
//! time is the duration that a [`Clock`] has run for when it is read.
use std::time::Duration;

use tokio::time::Instant;
use vstd::prelude::*;

verus! {

/// A count of nanoseconds.
pub type Nanos = u128;

/// The longest duration: `u64::MAX` seconds and 999 999 999 nanoseconds.
pub const MAX_DURATION: Nanos = 18_446_744_073_709_551_615_999_999_999;

/// One second.
pub const SECOND: Nanos = 1_000_000_000;

/// A duration `n` times as long as `d`, cut off at [`MAX_DURATION`].
pub open spec fn scaled(d: int, n: int) -> int {
    if d * n <= MAX_DURATION {
        d * n
    } else {
        MAX_DURATION as int
    }
}

/// The duration `n` times as long as `d`, or [`MAX_DURATION`] where that would be longer.
pub fn saturating_mul(d: Nanos, n: u32) -> (r: Nanos)
    requires
        d <= MAX_DURATION,
    ensures
        r == scaled(d as int, n as int),
{
    assert(0 <= d * n <= MAX_DURATION * u32::MAX) by (nonlinear_arith)
        requires
            0 <= d <= MAX_DURATION,
            0 <= n <= u32::MAX,
    ;
    let product = d * (n as u128);
    if product <= MAX_DURATION {
        product
    } else {
        MAX_DURATION
    }
}

/// The monotonic clock reading of tokio, which Verus treats as opaque.
#[verifier::external_type_specification]
#[verifier::external_body]
pub struct ExInstant(Instant);

/// `tokio::time::Instant::now` reads the clock. Nothing is claimed of the reading.
pub assume_specification[ Instant::now ]() -> Instant;

/// `tokio::time::Instant::elapsed` gives the time from `instant` to now. It depends on
/// the clock alone, so nothing is claimed of it.
pub assume_specification[ Instant::elapsed ](instant: &Instant) -> Duration;

/// `std::time::Duration::as_nanos` gives the duration in nanoseconds. No duration is
/// longer than [`MAX_DURATION`]; which one it is stays unsaid, because a `Duration` is
/// opaque here.
pub assume_specification[ Duration::as_nanos ](d: &Duration) -> (r: u128)
    ensures
        r <= MAX_DURATION,
;

/// A monotonic clock that counts from the moment it was started.
pub struct Clock {
    origin: Instant,
}

impl Clock {
    /// The moment at which the clock was started.
    pub closed spec fn origin(&self) -> Instant {
        self.origin
    }

    /// Whether the clock gave this reading: the nanoseconds of a time that has elapsed
    /// since it was started.
    pub open spec fn gave(&self, reading: Nanos) -> bool {
        exists|elapsed: Duration| #[trigger]
            Instant::elapsed.ensures((&self.origin(),), elapsed) && Duration::as_nanos.ensures(
                (&elapsed,),
                reading,
            )
    }

    /// Starts a clock.
    pub fn start() -> (r: Clock)
        ensures
            Instant::now.ensures((), r.origin()),
    {
        Clock { origin: Instant::now() }
    }

    /// The time since the clock was started.
    ///
    /// The reading is up to the machine. It is always a duration.
    pub fn now(&self) -> (r: Nanos)
        ensures
            r <= MAX_DURATION,
            self.gave(r),
    {
        let elapsed = self.origin.elapsed();
        let reading = elapsed.as_nanos();
        assert(Instant::elapsed.ensures((&self.origin(),), elapsed));
        assert(Duration::as_nanos.ensures((&elapsed,), reading));
        reading
    }
}

/// A clock reads the time that has elapsed since it was started, nanosecond by nanosecond.
pub proof fn law_readings_are_elapsed_time(clock: Clock, reading: Nanos)
    requires
        Clock::now.ensures((&clock,), reading),
    ensures
        reading <= MAX_DURATION,
        exists|elapsed: Duration| #[trigger]
            Instant::elapsed.ensures((&clock.origin(),), elapsed) && Duration::as_nanos.ensures(
                (&elapsed,),
                reading,
            ),
{
}

} // verus!
