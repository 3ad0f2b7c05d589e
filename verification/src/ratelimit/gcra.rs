//! A GCRA (Generic Cell Rate Algorithm) rate limiter over an abstract resource.
//!
//! Each request consumes some amount of the resource, given by its [`Cost`]. The
//! concrete uses differ *only* in their parameters and cost:
//! - request-rate limiting: one unit per request ([`PerRequest`]),
//! - bandwidth limiting: one unit per response byte ([`PerByte`]).
use std::sync::atomic::AtomicI64;

use vstd::prelude::*;

use super::gcra_laws::{law_full_bucket_equals_burst, lemma_increment};
use super::level::{loaded, Publisher, Subscriber};
use super::{Decision, ReqInfo, Wakeup};
use crate::clock::{saturating_mul, Nanos, MAX_DURATION};

verus! {

/// The resource that a request consumes.
pub trait Cost {
    /// Units that `info` consumes.
    spec fn units(&self, info: ReqInfo) -> u32;

    /// Units that `info` consumes.
    fn cost(&self, info: &ReqInfo) -> (r: u32)
        ensures
            r == self.units(*info),
    ;
}

/// Every request costs one unit.
pub struct PerRequest;

/// Every request costs its response size.
pub struct PerByte;

impl Cost for PerRequest {
    open spec fn units(&self, info: ReqInfo) -> u32 {
        1
    }

    fn cost(&self, _info: &ReqInfo) -> (r: u32) {
        1
    }
}

impl Cost for PerByte {
    open spec fn units(&self, info: ReqInfo) -> u32 {
        info.size
    }

    fn cost(&self, info: &ReqInfo) -> (r: u32) {
        info.size
    }
}

/// The farthest that an arrival time is kept from its origin: no reading of the clock plus
/// a duration lies farther.
pub const FARTHEST: Nanos = 2 * MAX_DURATION;

/// A leaky bucket: what a limiter knows of the resource.
pub struct Bucket {
    /// Emission interval per unit of resource, `T = 1 / rate`.
    pub per_unit: int,
    /// Units that a full bucket holds.
    pub burst: int,
    /// Burst tolerance `tau = burst * T` (the bucket's full drain time).
    pub tolerance: int,
    /// Origin of `tat`.
    pub base: int,
    /// Theoretical arrival time, as nanoseconds since `base`.
    pub tat: int,
}

impl Bucket {
    /// The bucket of `burst` units, one per `per_unit` nanoseconds, that is full at `now`.
    pub open spec fn full(per_unit: int, burst: int, now: int) -> Bucket {
        Bucket {
            per_unit,
            burst,
            tolerance: crate::clock::scaled(per_unit, burst),
            base: now,
            tat: 0,
        }
    }

    /// The interval and the origin are durations, the tolerance is that of the burst, and
    /// the arrival time is no farther than [`FARTHEST`].
    pub open spec fn valid(self) -> bool {
        &&& 0 <= self.per_unit <= MAX_DURATION
        &&& 0 <= self.burst <= u32::MAX
        &&& self.tolerance == crate::clock::scaled(self.per_unit, self.burst)
        &&& 0 <= self.base <= MAX_DURATION
        &&& 0 <= self.tat <= FARTHEST
    }

    /// The theoretical arrival time.
    pub open spec fn arrival(self) -> int {
        self.base + self.tat
    }

    /// Time the theoretical arrival time advances when `units` are consumed.
    pub open spec fn increment(self, units: int) -> int {
        crate::clock::scaled(self.per_unit, units)
    }

    /// Whether `units` may be consumed at `now`.
    pub open spec fn allows(self, now: int, units: int) -> bool {
        self.arrival() + self.increment(units) <= now + self.tolerance
    }

    /// How long after `now` `units` may be consumed, if not yet.
    pub open spec fn delay(self, now: int, units: int) -> int {
        self.arrival() + self.increment(units) - (now + self.tolerance)
    }

    /// The decision on a request of `units` at `now`.
    pub open spec fn decide(self, now: int, units: int) -> Decision {
        if self.allows(now, units) {
            Decision::Ready
        } else {
            Decision::Blocked(Wakeup::After(self.delay(now, units) as u128))
        }
    }

    /// The theoretical arrival time once `units` have been consumed at `now`, as
    /// nanoseconds since `base`.
    pub open spec fn next_tat(self, now: int, units: int) -> int {
        (if self.arrival() >= now {
            self.arrival()
        } else {
            now
        }) + self.increment(units) - self.base
    }

    /// The bucket once `units` have been consumed at `now`. Only a request that was not
    /// allowed can reach [`FARTHEST`].
    pub open spec fn consume(self, now: int, units: int) -> Bucket {
        let next = self.next_tat(now, units);
        self.with_tat(
            if next <= FARTHEST {
                next
            } else {
                FARTHEST as int
            },
        )
    }

    /// The bucket with another arrival time.
    pub open spec fn with_tat(self, tat: int) -> Bucket {
        Bucket { tat, ..self }
    }

    /// Part of the tolerance that is not used up at `now`.
    pub open spec fn free(self, now: int) -> int {
        let used = if self.arrival() > now {
            self.arrival() - now
        } else {
            0
        };
        if self.tolerance > used {
            self.tolerance - used
        } else {
            0
        }
    }

    /// Whole units that are left at `now`. A bucket that has drained is full; where units
    /// take no time, one that has not drained holds none.
    pub open spec fn remaining(self, now: int) -> int {
        if self.arrival() <= now {
            self.burst
        } else if self.per_unit == 0 {
            0
        } else {
            self.free(now) / self.per_unit
        }
    }

    /// The arrival time as it is published: an atomic holds 63 bits of it.
    pub open spec fn published_tat(self) -> int {
        if self.tat <= i64::MAX {
            self.tat
        } else {
            i64::MAX as int
        }
    }
}

/// The GCRA rate limiter.
///
/// State is a single theoretical arrival time (`tat`). Capacity is only ever consumed on
/// serve start ([`on_start`](GcraLimiter::on_start)); there is nothing to release on
/// serve end, so it wakes purely on the clock.
///
/// The arrival time is published in an atomic after every change, so that a
/// [`GcraObserver`] can read the live bucket level lock-free and compute the remaining
/// capacity online. The limiter itself remains single-owner: it never reads the atomic. An
/// arrival time past what the atomic holds, some 292 years, is published as the largest
/// that it does hold.
pub struct GcraLimiter<C> {
    per_unit: Nanos,
    burst: u32,
    tolerance: Nanos,
    cost: C,
    base: Nanos,
    tat: Nanos,
    publisher: Publisher,
}

impl<C: Cost> View for GcraLimiter<C> {
    type V = Bucket;

    closed spec fn view(&self) -> Bucket {
        Bucket {
            per_unit: self.per_unit as int,
            burst: self.burst as int,
            tolerance: self.tolerance as int,
            base: self.base as int,
            tat: self.tat as int,
        }
    }
}

impl<C: Cost> GcraLimiter<C> {
    /// The bucket is valid, and its arrival time is published.
    pub open spec fn wf(&self) -> bool {
        self@.valid() && self.published() == self@.published_tat()
    }

    /// What requests cost.
    pub closed spec fn cost_spec(&self) -> C {
        self.cost
    }

    /// The arrival time that was published last.
    pub closed spec fn published(&self) -> int {
        self.publisher.published() as int
    }

    /// Which atomic the arrival time is published in.
    pub closed spec fn cell(&self) -> int {
        self.publisher.cell()
    }

    /// Units that `info` consumes.
    pub open spec fn units(&self, info: ReqInfo) -> int {
        self.cost_spec().units(info) as int
    }

    /// Builds a limiter that allows one unit per `per_unit` nanoseconds, sustained, with
    /// up to `burst` units consumed back-to-back. `cost` maps a request to the number of
    /// units it consumes. The bucket is full at `now`.
    pub fn new(per_unit: Nanos, burst: u32, cost: C, now: Nanos) -> (r: Self)
        requires
            per_unit <= MAX_DURATION,
            now <= MAX_DURATION,
        ensures
            r.wf(),
            r@ == Bucket::full(per_unit as int, burst as int, now as int),
            r.cost_spec() == cost,
    {
        let tolerance = saturating_mul(per_unit, burst);
        GcraLimiter {
            per_unit,
            burst,
            tolerance,
            cost,
            base: now,
            tat: 0,
            publisher: Publisher::new(0),
        }
    }

    /// Time the theoretical arrival time advances if this request is served.
    fn increment(&self, info: &ReqInfo) -> (r: Nanos)
        requires
            self.wf(),
        ensures
            r == self@.increment(self.units(*info)),
            r <= MAX_DURATION,
    {
        saturating_mul(self.per_unit, self.cost.cost(info))
    }

    /// The theoretical arrival time.
    fn tat(&self) -> (r: Nanos)
        requires
            self.wf(),
        ensures
            r == self@.arrival(),
            r <= MAX_DURATION + FARTHEST,
    {
        self.base + self.tat
    }

    /// Read-only check: is a request allowed to start right now?
    ///
    /// Allowed when `tat + increment <= now + tolerance`. Otherwise the wakeup comes
    /// exactly when that becomes true.
    pub fn check(&self, now: Nanos, info: &ReqInfo) -> (r: Decision)
        requires
            self.wf(),
            now <= MAX_DURATION,
        ensures
            r == self@.decide(now as int, self.units(*info)),
    {
        proof {
            lemma_increment(self@, self.units(*info));
        }
        let target = self.tat() + self.increment(info);
        let threshold = now + self.tolerance;
        if target <= threshold {
            Decision::Ready
        } else {
            Decision::Blocked(Wakeup::After(target - threshold))
        }
    }

    /// Commits a grant: advances the theoretical arrival time by the request's cost.
    pub fn on_start(&mut self, now: Nanos, info: &ReqInfo)
        requires
            old(self).wf(),
            now <= MAX_DURATION,
        ensures
            final(self).wf(),
            final(self)@ == old(self)@.consume(now as int, old(self).units(*info)),
            final(self).cost_spec() == old(self).cost_spec(),
            final(self).cell() == old(self).cell(),
    {
        let tat = self.tat();
        let start = if tat >= now {
            tat
        } else {
            now
        };
        let next = start + self.increment(info) - self.base;
        self.tat = if next <= FARTHEST {
            next
        } else {
            FARTHEST
        };
        let level = self.level();
        self.publisher.publish(level);
    }

    /// The arrival time as it is published.
    pub fn level(&self) -> (r: i64)
        requires
            self@.valid(),
        ensures
            r == self@.published_tat(),
    {
        if self.tat <= i64::MAX as u128 {
            self.tat as i64
        } else {
            i64::MAX
        }
    }

    /// GCRA has no per-serve state to release.
    pub fn on_end(&mut self, _info: &ReqInfo)
        ensures
            *final(self) == *old(self),
    {
    }

    /// A lock-free handle for reading the bucket's remaining capacity.
    pub fn observer(&self) -> (r: GcraObserver)
        requires
            self.wf(),
        ensures
            r.wf(),
            forall|tat: int| #[trigger]
                r.bucket(tat) == self@.with_tat(
                    if tat >= 0 {
                        tat
                    } else {
                        0
                    },
                ),
            r.watches(self),
    {
        GcraObserver {
            per_unit: self.per_unit,
            burst: self.burst,
            tolerance: self.tolerance,
            base: self.base,
            published: self.publisher.subscribe(),
        }
    }
}

pub(crate) proof fn lemma_watched_bucket(observer: &GcraObserver, tat: i64)
    ensures
        observer.bucket(tat as int) == observer.bucket(0).with_tat(
            if tat >= 0 {
                tat as int
            } else {
                0
            },
        ),
{
}

/// The point in time `tat` nanoseconds after `base`, or `base` where `tat` is negative.
fn arrival(base: Nanos, tat: i64) -> (r: Nanos)
    requires
        base <= MAX_DURATION,
    ensures
        r == base + if tat >= 0 {
            tat as int
        } else {
            0
        },
{
    if tat >= 0 {
        base + tat as u128
    } else {
        base
    }
}

/// Lock-free view of a [`GcraLimiter`]'s remaining bucket capacity, computed online
/// against the current clock. Reports units (requests for req-rate, bytes for traffic),
/// so a full bucket equals the configured burst.
pub struct GcraObserver {
    per_unit: Nanos,
    burst: u32,
    tolerance: Nanos,
    base: Nanos,
    published: Subscriber,
}

impl GcraObserver {
    /// The bucket that is watched, at the published arrival time `tat`; a negative one
    /// counts as 0.
    pub closed spec fn bucket(&self, tat: int) -> Bucket {
        Bucket {
            per_unit: self.per_unit as int,
            burst: self.burst as int,
            tolerance: self.tolerance as int,
            base: self.base as int,
            tat: if tat >= 0 {
                tat
            } else {
                0
            },
        }
    }

    /// Which atomic the arrival time is read from.
    pub closed spec fn cell(&self) -> int {
        self.published.cell()
    }

    /// The atomic that the arrival time is read from.
    pub closed spec fn atomic(&self) -> AtomicI64 {
        self.published.atomic()
    }

    /// Whether `limiter` publishes what is read here, and has the same parameters.
    pub open spec fn watches<C: Cost>(&self, limiter: &GcraLimiter<C>) -> bool {
        &&& self.cell() == limiter.cell()
        &&& self.bucket(0) == limiter@.with_tat(0)
    }

    /// The bucket is valid.
    pub open spec fn wf(&self) -> bool {
        self.bucket(0).valid()
    }

    /// Remaining units in the bucket at `now`, capped at the burst capacity.
    ///
    /// Which arrival time has been published last is up to the limiter's owner, who may
    /// be running in another task; [`remaining_at`](GcraObserver::remaining_at) says
    /// what each gives, and [`remaining_beside`](GcraObserver::remaining_beside) which it
    /// is while the owner stands by.
    pub fn remaining(&self, now: Nanos) -> (r: u64)
        requires
            self.wf(),
            now <= MAX_DURATION,
        ensures
            exists|tat: i64| #[trigger]
                loaded(self.atomic(), tat) && r == self.bucket(tat as int).remaining(now as int),
    {
        let tat = self.published.read();
        assert(loaded(self.atomic(), tat));
        self.remaining_at(tat, now)
    }

    /// Remaining units in the bucket at `now`, while the owner of the limiter that is
    /// watched stands by: those at the arrival time that it published last.
    pub fn remaining_beside<C: Cost>(&self, limiter: &GcraLimiter<C>, now: Nanos) -> (r: u64)
        requires
            limiter.wf(),
            self.watches(limiter),
            now <= MAX_DURATION,
        ensures
            r == limiter@.with_tat(limiter@.published_tat()).remaining(now as int),
    {
        let tat = self.published.read_beside(&limiter.publisher);
        self.remaining_at(tat, now)
    }

    /// Remaining units in the bucket at `now` when the arrival time is `tat`.
    pub fn remaining_at(&self, tat: i64, now: Nanos) -> (r: u64)
        requires
            self.wf(),
            now <= MAX_DURATION,
        ensures
            r == self.bucket(tat as int).remaining(now as int),
    {
        let arrival = arrival(self.base, tat);
        if arrival <= now {
            self.burst as u64
        } else if self.per_unit == 0 {
            0
        } else {
            let used = arrival - now;
            let free = if self.tolerance > used {
                self.tolerance - used
            } else {
                0
            };
            proof {
                law_full_bucket_equals_burst(self.bucket(tat as int), now as int);
            }
            (free / self.per_unit) as u64
        }
    }
}

} // verus!
