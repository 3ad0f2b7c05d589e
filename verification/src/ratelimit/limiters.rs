//! The fixed set of rate limiters.
use vstd::prelude::*;

use super::concurrency::{decide_free, ConcurrencyLimiter};
use super::gcra::{Bucket, GcraLimiter, PerByte, PerRequest, FARTHEST};
use super::permits::{max_permits, Slot};
use super::{Decision, ReqInfo};
use crate::clock::{Nanos, MAX_DURATION, SECOND};

verus! {

/// Request-rate limiter: sustained requests/second.
pub const REQUEST_RATE: u128 = 100;

/// Request-rate limiter: time per request.
pub const REQUEST_INTERVAL: Nanos = SECOND / REQUEST_RATE;

/// Request-rate limiter: burst in requests.
pub const REQUEST_BURST: u32 = 200;

/// Bandwidth limiter: sustained bytes/second. 125 MB/s == 1 Gbps; counted in bytes.
pub const TRAFFIC_RATE: u128 = 125_000_000;

/// Bandwidth limiter: time per byte.
pub const TRAFFIC_INTERVAL: Nanos = SECOND / TRAFFIC_RATE;

/// Bandwidth limiter: burst in bytes.
pub const TRAFFIC_BURST: u32 = 250_000_000;

/// Hard cap on the number of requests being served concurrently.
pub const CONCURRENCY_LIMIT: usize = 200;

/// What the limiters know.
pub struct Limits {
    /// The bucket of the request-rate limiter.
    pub requests: Bucket,
    /// The bucket of the bandwidth limiter.
    pub traffic: Bucket,
    /// Serves that may start before the concurrency cap is reached.
    pub free: nat,
}

impl Limits {
    /// Every limiter at rest at `now`.
    pub open spec fn fresh(now: int) -> Limits {
        Limits {
            requests: Bucket::full(REQUEST_INTERVAL as int, REQUEST_BURST as int, now),
            traffic: Bucket::full(TRAFFIC_INTERVAL as int, TRAFFIC_BURST as int, now),
            free: CONCURRENCY_LIMIT as nat,
        }
    }

    /// The buckets are those of [`Limits::fresh`], each at some arrival time.
    pub open spec fn valid(self) -> bool {
        let fresh = Limits::fresh(self.requests.base);
        &&& 0 <= self.requests.base <= MAX_DURATION
        &&& self.requests == fresh.requests.with_tat(self.requests.tat)
        &&& self.traffic == fresh.traffic.with_tat(self.traffic.tat)
        &&& 0 <= self.requests.tat <= FARTHEST
        &&& 0 <= self.traffic.tat <= FARTHEST
        &&& self.free <= max_permits()
    }

    /// The decision on a request at `now`: every limiter is asked.
    pub open spec fn decide(self, now: int, info: ReqInfo) -> Decision {
        self.requests.decide(now, 1).both(self.traffic.decide(now, info.size as int)).both(
            decide_free(self.free),
        )
    }

    /// The limiters once a request has started at `now`.
    pub open spec fn start(self, now: int, info: ReqInfo) -> Limits {
        Limits {
            requests: self.requests.consume(now, 1),
            traffic: self.traffic.consume(now, info.size as int),
            free: (self.free - 1) as nat,
        }
    }

    /// The limiters once a request has ended.
    pub open spec fn end(self) -> Limits {
        Limits { free: self.free + 1, ..self }
    }
}

/// The fixed set of rate limiters. Intentionally a concrete struct: the set is known at
/// compile time and new limiters are added as additional fields. Serving requires *every*
/// limiter to allow.
pub struct RateLimiters {
    /// Limits request rate; each request costs 1.
    req_rate_limit: GcraLimiter<PerRequest>,
    /// Limits bandwidth; each request costs its response size in bytes.
    traffic_rate_limit: GcraLimiter<PerByte>,
    /// Hard cap on concurrently-serving requests.
    concurrency: ConcurrencyLimiter,
}

impl View for RateLimiters {
    type V = Limits;

    closed spec fn view(&self) -> Limits {
        Limits {
            requests: self.req_rate_limit@,
            traffic: self.traffic_rate_limit@,
            free: self.concurrency@,
        }
    }
}

impl RateLimiters {
    /// The limiters are configured as they should be, and what observers read of them is
    /// up to date.
    pub open spec fn wf(&self) -> bool {
        self@.valid() && self.published()
    }

    /// The rate limiters have published their arrival times.
    pub closed spec fn published(&self) -> bool {
        &&& self.req_rate_limit.published() == self.req_rate_limit@.published_tat()
        &&& self.traffic_rate_limit.published() == self.traffic_rate_limit@.published_tat()
    }

    /// The limiters, all at rest at `now`.
    pub fn new(now: Nanos) -> (r: Self)
        requires
            now <= MAX_DURATION,
        ensures
            r.wf(),
            r@ == Limits::fresh(now as int),
    {
        RateLimiters {
            req_rate_limit: GcraLimiter::new(REQUEST_INTERVAL, REQUEST_BURST, PerRequest, now),
            traffic_rate_limit: GcraLimiter::new(TRAFFIC_INTERVAL, TRAFFIC_BURST, PerByte, now),
            concurrency: ConcurrencyLimiter::new(CONCURRENCY_LIMIT),
        }
    }

    /// Read-only check across all limiters. Returns [`Decision::Ready`] only when every
    /// limiter allows; otherwise a single wakeup that comes as soon as *any* blocking
    /// limiter might allow progress (re-checking then converges).
    pub fn check(&self, now: Nanos, info: &ReqInfo) -> (r: Decision)
        requires
            self.wf(),
            now <= MAX_DURATION,
        ensures
            r == self@.decide(now as int, *info),
    {
        let requests = self.req_rate_limit.check(now, info);
        let traffic = self.traffic_rate_limit.check(now, info);
        let concurrency = self.concurrency.check(now, info);
        requests.and(traffic).and(concurrency)
    }

    /// Commits a grant on every limiter. The concurrency limiter must allow it.
    pub fn on_start(&mut self, now: Nanos, info: &ReqInfo)
        requires
            old(self).wf(),
            old(self)@.free > 0,
            now <= MAX_DURATION,
        ensures
            final(self).wf(),
            final(self)@ == old(self)@.start(now as int, *info),
    {
        let _ = self.claim(now, info);
    }

    /// Commits a grant on every limiter, and gives the slot that it takes of the concurrency
    /// limiter, which must allow it.
    pub(crate) fn claim(&mut self, now: Nanos, info: &ReqInfo) -> (slot: Slot)
        requires
            old(self).wf(),
            old(self)@.free > 0,
            now <= MAX_DURATION,
        ensures
            final(self).wf(),
            final(self)@ == old(self)@.start(now as int, *info),
    {
        self.req_rate_limit.on_start(now, info);
        self.traffic_rate_limit.on_start(now, info);
        self.concurrency.claim()
    }

    /// Whether a serve can end: the concurrency limiter has room for its permit.
    pub fn can_end(&self) -> (r: bool)
        ensures
            r == (self@.free < max_permits()),
    {
        self.concurrency.can_end()
    }

    /// Releases a finished serve on every limiter.
    pub fn on_end(&mut self, info: &ReqInfo)
        requires
            old(self).wf(),
            old(self)@.free < max_permits(),
        ensures
            final(self).wf(),
            final(self)@ == old(self)@.end(),
    {
        self.req_rate_limit.on_end(info);
        self.traffic_rate_limit.on_end(info);
        self.concurrency.on_end(info);
    }
}

} // verus!
