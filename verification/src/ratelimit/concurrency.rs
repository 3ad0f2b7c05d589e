//! A concurrency limiter: a hard cap on the number of requests *actively* being served
//! at once.
use vstd::prelude::*;

use super::permits::{max_permits, PermitPool, PermitWatch, Slot};
use super::{Decision, ReqInfo, Wakeup};
use crate::clock::Nanos;

verus! {

/// The concurrency limiter.
///
/// Semaphore-style: capacity is taken on serve start
/// ([`on_start`](ConcurrencyLimiter::on_start)) and returned on serve end
/// ([`on_end`](ConcurrencyLimiter::on_end)). It "wakes when another serve ends": the
/// scheduler is told of that, and looks at its queue again, so this limiter's own wakeup
/// never comes.
pub struct ConcurrencyLimiter {
    pool: PermitPool,
}

impl View for ConcurrencyLimiter {
    type V = nat;

    /// Serves that may start before the cap is reached.
    closed spec fn view(&self) -> nat {
        self.pool.left()
    }
}

/// The decision when `free` serves may start.
pub open spec fn decide_free(free: nat) -> Decision {
    if free > 0 {
        Decision::Ready
    } else {
        Decision::Blocked(Wakeup::Never)
    }
}

impl ConcurrencyLimiter {
    /// Which semaphore holds the permits.
    pub closed spec fn semaphore(&self) -> int {
        self.pool.semaphore()
    }

    /// Allows at most `limit` requests to be served concurrently.
    pub fn new(limit: usize) -> (r: Self)
        requires
            limit <= max_permits(),
        ensures
            r@ == limit,
    {
        ConcurrencyLimiter { pool: PermitPool::new(limit) }
    }

    /// Ready while a permit is available. When full, the wakeup never comes on its own:
    /// the only thing that frees capacity is a serve ending, which the scheduler observes
    /// and uses to re-evaluate the queue.
    pub fn check(&self, _now: Nanos, _info: &ReqInfo) -> (r: Decision)
        ensures
            r == decide_free(self@),
    {
        if self.pool.count() > 0 {
            Decision::Ready
        } else {
            Decision::Blocked(Wakeup::Never)
        }
    }

    /// Takes a permit, which must be available: [`check`](ConcurrencyLimiter::check)
    /// reported [`Decision::Ready`]. It stays taken until
    /// [`on_end`](ConcurrencyLimiter::on_end) returns it.
    pub fn on_start(&mut self, _now: Nanos, _info: &ReqInfo)
        requires
            old(self)@ > 0,
        ensures
            final(self)@ == old(self)@ - 1,
            final(self).semaphore() == old(self).semaphore(),
    {
        let _ = self.claim();
    }

    /// Takes a permit, which must be available, and gives the slot.
    pub(crate) fn claim(&mut self) -> (slot: Slot)
        requires
            old(self)@ > 0,
        ensures
            final(self)@ == old(self)@ - 1,
            final(self).semaphore() == old(self).semaphore(),
    {
        self.pool.take()
    }

    /// Whether another permit can be returned.
    pub fn can_end(&self) -> (r: bool)
        ensures
            r == (self@ < max_permits()),
    {
        self.pool.count() < usize::MAX / 8
    }

    /// Returns a permit when a serve finishes.
    pub fn on_end(&mut self, _info: &ReqInfo)
        requires
            old(self)@ < max_permits(),
        ensures
            final(self)@ == old(self)@ + 1,
            final(self).semaphore() == old(self).semaphore(),
    {
        self.pool.give_back();
    }

    /// A lock-free handle for reading the number of remaining permits.
    pub fn observer(&self) -> (r: ConcurrencyObserver)
        ensures
            r.semaphore() == self.semaphore(),
    {
        ConcurrencyObserver { permits: self.pool.watch() }
    }
}

/// Lock-free view of a [`ConcurrencyLimiter`]'s free capacity.
pub struct ConcurrencyObserver {
    permits: PermitWatch,
}

impl ConcurrencyObserver {
    /// Which semaphore is watched.
    pub closed spec fn semaphore(&self) -> int {
        self.permits.semaphore()
    }

    /// Whether a count of the permits gave `n`.
    pub closed spec fn counted(&self, n: usize) -> bool {
        self.permits.counted(n)
    }

    /// Number of serves that may currently start before hitting the cap.
    ///
    /// The limiter's owner may be running in another task, so the number can change
    /// while it is read; [`available_beside`](ConcurrencyObserver::available_beside) says
    /// what it is while the owner stands by.
    pub fn available(&self) -> (r: u64)
        ensures
            r <= max_permits(),
            exists|n: usize| #[trigger] self.counted(n) && r == n,
    {
        let n = self.permits.count();
        assert(self.counted(n));
        n as u64
    }

    /// Number of serves that may start before hitting the cap, while the owner of the
    /// limiter that is watched stands by.
    pub fn available_beside(&self, limiter: &ConcurrencyLimiter) -> (r: u64)
        requires
            self.semaphore() == limiter.semaphore(),
        ensures
            r == limiter@,
    {
        self.permits.count_beside(&limiter.pool) as u64
    }
}

/// A use of the limiter.
pub enum Use {
    /// A serve starts.
    Start,
    /// A serve ends.
    End,
}

/// Serves that are under way after `uses`.
pub open spec fn active(uses: Seq<Use>) -> int
    decreases uses.len(),
{
    if uses.len() == 0 {
        0
    } else {
        active(uses.drop_last()) + match uses.last() {
            Use::Start => 1int,
            Use::End => -1,
        }
    }
}

/// Whether a limiter passes through `frees`, one more than `uses`: each start is one that
/// [`ConcurrencyLimiter::check`] allows, and each use changes what is free as
/// [`ConcurrencyLimiter::on_start`] and [`ConcurrencyLimiter::on_end`] do.
pub open spec fn passes(frees: Seq<nat>, uses: Seq<Use>) -> bool {
    &&& frees.len() == uses.len() + 1
    &&& forall|i: int|
        0 <= i < uses.len() ==> match #[trigger] uses[i] {
            Use::Start => decide_free(frees[i]) is Ready && frees[i + 1] == frees[i] - 1,
            Use::End => frees[i + 1] == frees[i] + 1,
        }
}

/// The cap: never more than the limit are under way, and what is free, which every observer
/// of the limiter reads beside it, is exactly the rest.
pub proof fn law_free_is_the_rest_of_the_limit(limit: nat, frees: Seq<nat>, uses: Seq<Use>)
    requires
        passes(frees, uses),
        frees[0] == limit,
    ensures
        active(uses) <= limit,
        frees.last() == limit - active(uses),
    decreases uses.len(),
{
    if uses.len() > 0 {
        let rest = uses.drop_last();
        let before = frees.drop_last();
        assert forall|i: int| 0 <= i < rest.len() implies match #[trigger] rest[i] {
            Use::Start => decide_free(before[i]) is Ready && before[i + 1] == before[i] - 1,
            Use::End => before[i + 1] == before[i] + 1,
        } by {
            assert(rest[i] == uses[i]);
        }
        law_free_is_the_rest_of_the_limit(limit, before, rest);
        assert(uses[uses.len() - 1] == uses.last());
    }
}

/// An observer reports what is left of the limiter that it watches: where every count of
/// the permits gives what the limiter has left, that is what is reported.
pub proof fn law_observer_reports_what_is_left(
    observer: ConcurrencyObserver,
    limiter: ConcurrencyLimiter,
    r: u64,
)
    requires
        forall|n: usize| #[trigger] observer.counted(n) ==> n == limiter@,
        ConcurrencyObserver::available.ensures((&observer,), r),
    ensures
        r == limiter@,
{
}

} // verus!
