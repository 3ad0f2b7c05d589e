//! The scheduler as a state machine: what is waiting, what the limiters know, and how
//! both change.
use vstd::prelude::*;

use super::limiters::Limits;
use super::permits::max_permits;
use super::{Decision, ReqInfo, Wakeup};
use crate::clock::MAX_DURATION;

verus! {

/// Priority key: smallest response first, then arrival order for stability.
pub type Key = (u32, u64);

/// Whether `a` is served before `b`.
pub open spec fn before(a: Key, b: Key) -> bool {
    a.0 < b.0 || (a.0 == b.0 && a.1 < b.1)
}

/// A request that waits to be served.
pub struct Pending {
    /// The request.
    pub info: ReqInfo,
    /// Whether data is available to stream.
    pub ready: bool,
}

/// Whether `key` is the request to serve next: it is ready, and no other ready request
/// comes before it.
pub open spec fn is_next(queue: Map<Key, Pending>, key: Key) -> bool {
    &&& queue.contains_key(key)
    &&& queue[key].ready
    &&& forall|other: Key| #[trigger]
        queue.contains_key(other) && queue[other].ready ==> other == key || before(key, other)
}

/// Whether nothing in the queue is ready to serve.
pub open spec fn none_ready(queue: Map<Key, Pending>) -> bool {
    forall|key: Key| #[trigger] queue.contains_key(key) ==> !queue[key].ready
}

/// Something that happens to the scheduler.
pub enum Act {
    /// A request is registered.
    Enqueue { seq: u64, info: ReqInfo },
    /// A request has data to stream.
    SetReady { key: Key },
    /// A request is no longer wanted.
    Remove { key: Key },
    /// A serve has ended.
    End { info: ReqInfo },
    /// The next request is granted at `now`.
    Grant { key: Key, now: int },
    /// The next request could be granted at `now`, but its handler gave up already.
    Skip { key: Key, now: int },
}

/// What waits, and what the limiters know.
pub struct State {
    /// The requests that wait.
    pub queue: Map<Key, Pending>,
    /// The limiters.
    pub limits: Limits,
}

impl State {
    /// Nothing waits, and every limiter is at rest at `now`.
    pub open spec fn fresh(now: int) -> State {
        State { queue: Map::empty(), limits: Limits::fresh(now) }
    }

    /// Every request waits under a key that starts with its size.
    pub open spec fn keyed(self) -> bool {
        forall|key: Key| #[trigger]
            self.queue.contains_key(key) ==> self.queue[key].info.size == key.0
    }

    /// Every request waits under its own key, and the limiters are configured as they
    /// should be.
    pub open spec fn valid(self) -> bool {
        self.limits.valid() && self.keyed()
    }

    /// Whether `act` can happen now. A request leaves the queue to be served only when it
    /// is next and every limiter allows it at a reading of the clock.
    pub open spec fn can(self, act: Act) -> bool {
        match act {
            Act::Grant { key, now } | Act::Skip { key, now } => {
                &&& 0 <= now <= MAX_DURATION
                &&& is_next(self.queue, key)
                &&& self.limits.decide(now, self.queue[key].info) is Ready
            },
            Act::End { info } => self.limits.free < max_permits(),
            _ => true,
        }
    }

    /// The state after `act`.
    pub open spec fn after(self, act: Act) -> State {
        match act {
            Act::Enqueue { seq, info } => State {
                queue: self.queue.insert((info.size, seq), Pending { info, ready: false }),
                ..self
            },
            Act::SetReady { key } => if self.queue.contains_key(key) {
                State {
                    queue: self.queue.insert(key, Pending { ready: true, ..self.queue[key] }),
                    ..self
                }
            } else {
                self
            },
            Act::Remove { key } | Act::Skip { key, .. } => State {
                queue: self.queue.remove(key),
                ..self
            },
            Act::End { info } => State { limits: self.limits.end(), ..self },
            Act::Grant { key, now } => State {
                queue: self.queue.remove(key),
                limits: self.limits.start(now, self.queue[key].info),
            },
        }
    }

    /// The state after `acts`, in order.
    pub open spec fn after_all(self, acts: Seq<Act>) -> State
        decreases acts.len(),
    {
        if acts.len() == 0 {
            self
        } else {
            self.after_all(acts.drop_last()).after(acts.last())
        }
    }

    /// Whether `acts` can happen, in order.
    pub open spec fn can_all(self, acts: Seq<Act>) -> bool
        decreases acts.len(),
    {
        acts.len() > 0 ==> {
            &&& self.can_all(acts.drop_last())
            &&& self.after_all(acts.drop_last()).can(acts.last())
        }
    }

    /// Whether dispatching stops here with no request ready, or with the next one blocked
    /// at `now` until `wakeup`.
    pub open spec fn stopped(self, now: int, wakeup: Option<Wakeup>) -> bool {
        match wakeup {
            None => none_ready(self.queue),
            Some(wakeup) => exists|key: Key| #[trigger]
                is_next(self.queue, key) && self.limits.decide(now, self.queue[key].info)
                    == Decision::Blocked(wakeup),
        }
    }
}

/// Whether `act` takes a request out of the queue to serve it.
pub open spec fn is_turn(act: Act) -> bool {
    act is Grant || act is Skip
}

} // verus!
