//! What holds of the limiters and the scheduler over several steps.
use std::sync::atomic::{AtomicU64, Ordering};
use std::time::Duration;

use tokio::sync::mpsc::UnboundedSender;
use tokio::sync::oneshot;
use tokio::time::Instant;
use vstd::prelude::*;

use super::gcra_laws::{
    law_allowed_stays_allowed, law_consume_keeps_bucket, law_sustained_rate,
    law_total_time_counts_units, law_wakeup_is_exact, total_units, Grant,
};
use super::limiters::{
    Limits, CONCURRENCY_LIMIT, REQUEST_BURST, REQUEST_INTERVAL, TRAFFIC_BURST, TRAFFIC_INTERVAL,
};
use super::scheduler::{
    are_halves, drawn, handed_over, posted, timed_by, Permit, SchedMsg, SchedulerHandle, Ticket,
};
use super::state::{before, is_next, is_turn, none_ready, Act, Key, Pending, State};
use super::{Decision, ReqInfo, Wakeup};
use crate::clock::{Clock, Nanos, MAX_DURATION};

verus! {

/// The first of two wakeups comes as soon as either does.
pub proof fn law_first_wakeup_comes_with_either(a: Wakeup, b: Wakeup, elapsed: int)
    ensures
        a.first_of(b).due(elapsed) <==> a.due(elapsed) || b.due(elapsed),
{
}

/// A request is allowed exactly when every limiter allows it.
pub proof fn law_ready_needs_every_limiter(limits: Limits, now: int, info: ReqInfo)
    ensures
        limits.decide(now, info) is Ready <==> {
            &&& limits.requests.allows(now, 1)
            &&& limits.traffic.allows(now, info.size as int)
            &&& limits.free > 0
        },
{
}

/// No wakeup is late: as long as nothing starts or ends, a blocked request stays blocked
/// until its wakeup comes.
pub proof fn law_blocked_until_wakeup(limits: Limits, now: int, info: ReqInfo, elapsed: int)
    requires
        limits.valid(),
        0 <= now,
        0 <= elapsed,
        limits.decide(now, info) is Blocked,
        limits.decide(now + elapsed, info) is Ready,
    ensures
        limits.decide(now, info) matches Decision::Blocked(wakeup) && wakeup.due(elapsed),
{
    if limits.requests.decide(now, 1) is Blocked {
        law_wakeup_is_exact(limits.requests, now, 1, elapsed);
    }
    if limits.traffic.decide(now, info.size as int) is Blocked {
        law_wakeup_is_exact(limits.traffic, now, info.size as int, elapsed);
    }
}

/// Re-checking converges: where a serve may start, the wakeup is a time, and looking
/// again then finds the request allowed, or blocked until a second time at which it is
/// allowed.
pub proof fn law_rechecking_converges(limits: Limits, now: int, info: ReqInfo)
    requires
        limits.valid(),
        0 <= now,
        limits.free > 0,
        limits.decide(now, info) is Blocked,
    ensures
        limits.decide(now, info) matches Decision::Blocked(Wakeup::After(first)) && match limits.decide(
            now + first,
            info,
        ) {
            Decision::Ready => true,
            Decision::Blocked(Wakeup::After(second)) => limits.decide(
                now + first + second,
                info,
            ) is Ready,
            Decision::Blocked(Wakeup::Never) => false,
        },
{
    let size = info.size as int;
    assert(limits.decide(now, info) matches Decision::Blocked(Wakeup::After(first)));
    let first = match limits.decide(now, info) {
        Decision::Blocked(Wakeup::After(first)) => first as int,
        _ => 0,
    };
    let requests = limits.requests.decide(now, 1);
    let traffic = limits.traffic.decide(now, size);
    if requests is Blocked {
        law_wakeup_is_exact(limits.requests, now, 1, first);
    } else {
        law_allowed_stays_allowed(limits.requests, now, now + first, 1);
    }
    if traffic is Blocked {
        law_wakeup_is_exact(limits.traffic, now, size, first);
    } else {
        law_allowed_stays_allowed(limits.traffic, now, now + first, size);
    }
    match limits.decide(now + first, info) {
        Decision::Blocked(Wakeup::After(second)) => {
            if limits.requests.decide(now + first, 1) is Blocked {
                law_wakeup_is_exact(limits.requests, now + first, 1, second as int);
                law_allowed_stays_allowed(
                    limits.traffic,
                    now + first,
                    now + first + second,
                    size,
                );
            } else {
                law_wakeup_is_exact(limits.traffic, now + first, size, second as int);
                law_allowed_stays_allowed(limits.requests, now + first, now + first + second, 1);
            }
        },
        _ => {},
    }
}

/// At the concurrency cap no request is allowed, however long one waits.
pub proof fn law_full_until_a_serve_ends(limits: Limits, now: int, info: ReqInfo)
    requires
        limits.free == 0,
    ensures
        limits.decide(now, info) is Blocked,
{
}

/// Ending a serve returns what starting it took from the concurrency cap, and gives the
/// rate limiters nothing back.
pub proof fn law_end_pairs_with_start(limits: Limits, now: int, info: ReqInfo)
    requires
        limits.free > 0,
    ensures
        limits.start(now, info).end().free == limits.free,
        limits.start(now, info).end().requests == limits.start(now, info).requests,
        limits.start(now, info).end().traffic == limits.start(now, info).traffic,
{
}

/// Whatever happens keeps the scheduler's state valid.
pub proof fn law_acts_keep_state_valid(state: State, act: Act)
    requires
        state.valid(),
        state.can(act),
    ensures
        state.after(act).valid(),
{
    match act {
        Act::Grant { key, now } => {
            let info = state.queue[key].info;
            law_ready_needs_every_limiter(state.limits, now, info);
            law_consume_keeps_bucket(state.limits.requests, now, 1);
            law_consume_keeps_bucket(state.limits.traffic, now, info.size as int);
        },
        _ => {},
    }
}

/// Whatever happens, and whether it should or not, every request waits under a key that
/// starts with its size.
pub proof fn law_keys_start_with_size(state: State, acts: Seq<Act>)
    requires
        state.keyed(),
    ensures
        state.after_all(acts).keyed(),
    decreases acts.len(),
{
    if acts.len() > 0 {
        law_keys_start_with_size(state, acts.drop_last());
    }
}

/// Only marking a waiting request as ready makes it ready.
pub proof fn law_only_set_ready_makes_ready(state: State, act: Act, key: Key)
    requires
        state.after(act).queue.contains_key(key),
        state.after(act).queue[key].ready,
        !(state.queue.contains_key(key) && state.queue[key].ready),
    ensures
        act == (Act::SetReady { key }),
        state.queue.contains_key(key),
{
}

/// Smallest response first, then arrival order: no ready request is smaller than the one
/// that is taken out of the queue, and none of the same size arrived before it.
pub proof fn law_smallest_first(state: State, key: Key, now: int, other: Key)
    requires
        state.valid(),
        state.can(Act::Grant { key, now }),
        state.queue.contains_key(other),
        state.queue[other].ready,
    ensures
        state.queue[key].info.size <= state.queue[other].info.size,
        state.queue[key].info.size == state.queue[other].info.size ==> key.1 <= other.1,
{
}

/// The scheduler never idles while something is ready: a queue in which a request is
/// ready has one to serve next.
pub proof fn law_ready_queue_has_next(queue: Map<Key, Pending>)
    requires
        queue.dom().finite(),
        !none_ready(queue),
    ensures
        exists|key: Key| is_next(queue, key),
    decreases queue.len(),
{
    let key = choose|key: Key| #[trigger] queue.contains_key(key) && queue[key].ready;
    let rest = queue.remove(key);
    assert(forall|other: Key| #[trigger]
        queue.contains_key(other) && other != key ==> rest.contains_key(other) && rest[other]
            == queue[other]);
    if none_ready(rest) {
        assert(is_next(queue, key));
    } else {
        law_ready_queue_has_next(rest);
        let next = choose|next: Key| is_next(rest, next);
        if before(key, next) {
            assert(is_next(queue, key));
        } else {
            assert(is_next(queue, next));
        }
    }
}

/// Nothing that could be served is left behind: where the next request is blocked, every
/// ready request is.
pub proof fn law_blocked_next_blocks_all(state: State, now: int, wakeup: Wakeup, key: Key)
    requires
        state.valid(),
        state.stopped(now, Some(wakeup)),
        state.queue.contains_key(key),
        state.queue[key].ready,
    ensures
        state.limits.decide(now, state.queue[key].info) is Blocked,
{
    let next = choose|next: Key| #[trigger]
        is_next(state.queue, next) && state.limits.decide(now, state.queue[next].info)
            == Decision::Blocked(wakeup);
    law_ready_needs_every_limiter(state.limits, now, state.queue[next].info);
    law_ready_needs_every_limiter(state.limits, now, state.queue[key].info);
    assert(state.queue[next].info.size <= state.queue[key].info.size);
}

/// There is only one request to serve next.
pub proof fn law_next_is_unique(queue: Map<Key, Pending>, a: Key, b: Key)
    requires
        is_next(queue, a),
        is_next(queue, b),
    ensures
        a == b,
{
}

/// A newly registered request is not served: it has to be marked as ready first.
pub proof fn law_new_request_waits_for_data(state: State, seq: u64, info: ReqInfo, now: int)
    ensures
        ({
            let key = (info.size, seq);
            let enqueued = state.after(Act::Enqueue { seq, info });
            &&& enqueued.queue.contains_key(key)
            &&& !enqueued.can(Act::Grant { key, now })
            &&& enqueued.after(Act::SetReady { key }).queue[key] == Pending { info, ready: true }
        }),
{
}

/// Removal is idempotent, and harmless after a grant.
pub proof fn law_removal_is_idempotent(state: State, key: Key, now: int)
    ensures
        state.after(Act::Remove { key }).after(Act::Remove { key }) == state.after(
            Act::Remove { key },
        ),
        state.after(Act::Grant { key, now }).after(Act::Remove { key }) == state.after(
            Act::Grant { key, now },
        ),
{
    let removed = state.queue.remove(key);
    assert(removed.remove(key) =~= removed);
}

/// Removing a request affects no other one, and neither takes nor returns capacity.
pub proof fn law_removal_affects_only_its_request(state: State, key: Key, other: Key)
    requires
        other != key,
    ensures
        state.after(Act::Remove { key }).limits == state.limits,
        state.after(Act::Remove { key }).queue.contains_key(other) <==> state.queue.contains_key(
            other,
        ),
        state.queue.contains_key(other) ==> state.after(Act::Remove { key }).queue[other]
            == state.queue[other],
{
}

/// Whether `act` registers a request under `key`.
pub open spec fn registers(act: Act, key: Key) -> bool {
    act matches Act::Enqueue { seq, info } && (info.size, seq) == key
}

/// A removed request is never served, whatever is removed or marked as ready after it: only
/// registering it again brings it back.
pub proof fn law_removed_request_is_not_served(state: State, key: Key, acts: Seq<Act>)
    requires
        forall|i: int|
            0 <= i < acts.len() ==> !registers(#[trigger] acts[i], key),
    ensures
        !state.after(Act::Remove { key }).after_all(acts).queue.contains_key(key),
    decreases acts.len(),
{
    if acts.len() > 0 {
        let rest = acts.drop_last();
        assert forall|i: int| 0 <= i < rest.len() implies !registers(#[trigger] rest[i], key) by {
            assert(rest[i] == acts[i]);
        }
        law_removed_request_is_not_served(state, key, rest);
        assert(acts.last() == acts[acts.len() - 1]);
    }
}

/// Marking a request that does not wait changes nothing.
pub proof fn law_late_ready_is_harmless(state: State, key: Key)
    requires
        !state.queue.contains_key(key),
    ensures
        state.after(Act::SetReady { key }) == state,
{
}

/// A handler that gave up costs no capacity: its request only leaves the queue.
pub proof fn law_skipped_request_costs_nothing(state: State, key: Key, now: int)
    ensures
        state.after(Act::Skip { key, now }).limits == state.limits,
        state.after(Act::Skip { key, now }) == state.after(Act::Remove { key }),
{
}

/// Histories compose: what can happen after something that can happen is one history, and
/// it ends where the second part does.
pub proof fn law_histories_compose(state: State, first: Seq<Act>, second: Seq<Act>)
    ensures
        state.after_all(first + second) == state.after_all(first).after_all(second),
        state.can_all(first + second) <==> state.can_all(first) && state.after_all(first).can_all(
            second,
        ),
    decreases second.len(),
{
    if second.len() == 0 {
        assert(first + second =~= first);
    } else {
        assert((first + second).drop_last() =~= first + second.drop_last());
        assert((first + second).last() == second.last());
        law_histories_compose(state, first, second.drop_last());
    }
}

/// Whether `act` takes the request under `key` out of the queue.
pub open spec fn takes_out(act: Act, key: Key) -> bool {
    match act {
        Act::Remove { key: other } => other == key,
        Act::Grant { key: other, .. } => other == key,
        Act::Skip { key: other, .. } => other == key,
        _ => false,
    }
}

/// Whether `acts` registered the request under `key` at `e`, and neither registered it
/// again nor took it out of the queue since.
pub open spec fn waits_since(acts: Seq<Act>, key: Key, e: int) -> bool {
    &&& 0 <= e < acts.len()
    &&& registers(acts[e], key)
    &&& forall|j: int|
        e < j < acts.len() ==> !registers(#[trigger] acts[j], key) && !takes_out(acts[j], key)
}

/// Whether `acts` marked the request under `key` as ready after `e`.
pub open spec fn marked_since(acts: Seq<Act>, key: Key, e: int) -> bool {
    exists|r: int| e < r < acts.len() && #[trigger] acts[r] == (Act::SetReady { key })
}

/// Whether `acts` registered the request under `key`, then marked it as ready, and did not
/// take it out of the queue in between or since.
pub open spec fn awaits_turn(acts: Seq<Act>, key: Key) -> bool {
    exists|e: int| #[trigger] waits_since(acts, key, e) && marked_since(acts, key, e)
}

proof fn lemma_waiting_requests_were_registered(state: State, acts: Seq<Act>, key: Key)
    requires
        !state.queue.contains_key(key),
        state.after_all(acts).queue.contains_key(key),
    ensures
        exists|e: int| #[trigger]
            waits_since(acts, key, e) && (state.after_all(acts).queue[key].ready ==> marked_since(
                acts,
                key,
                e,
            )),
    decreases acts.len(),
{
    if acts.len() > 0 {
        let rest = acts.drop_last();
        let last = acts.len() - 1;
        if registers(acts.last(), key) {
            assert(waits_since(acts, key, last));
        } else {
            assert(state.after_all(rest).queue.contains_key(key));
            lemma_waiting_requests_were_registered(state, rest, key);
            let e = choose|e: int| #[trigger]
                waits_since(rest, key, e) && (state.after_all(rest).queue[key].ready
                    ==> marked_since(rest, key, e));
            assert(rest[e] == acts[e]);
            assert forall|j: int| e < j < acts.len() implies !registers(#[trigger] acts[j], key)
                && !takes_out(acts[j], key) by {
                if j < last {
                    assert(rest[j] == acts[j]);
                }
            }
            assert(waits_since(acts, key, e));
            if state.after_all(rest).queue[key].ready {
                let r = choose|r: int|
                    e < r < rest.len() && #[trigger] rest[r] == (Act::SetReady { key });
                assert(acts[r] == rest[r]);
            } else if state.after_all(acts).queue[key].ready {
                law_only_set_ready_makes_ready(state.after_all(rest), acts.last(), key);
                assert(acts[last] == (Act::SetReady { key }));
            }
        }
    }
}

proof fn lemma_each_act_can_happen(state: State, acts: Seq<Act>, i: int)
    requires
        state.can_all(acts),
        0 <= i < acts.len(),
    ensures
        state.after_all(acts.take(i)).can(acts[i]),
    decreases acts.len(),
{
    let rest = acts.drop_last();
    if i == acts.len() - 1 {
        assert(acts.take(i) =~= rest);
    } else {
        lemma_each_act_can_happen(state, rest, i);
        assert(acts.take(i) =~= rest.take(i));
    }
}

/// Only what was registered and marked as ready is served: every grant comes after a
/// registration of its request and, after that, a mark, with no removal, grant or other
/// registration of it in between.
pub proof fn law_served_requests_were_ready(
    state: State,
    acts: Seq<Act>,
    key: Key,
    now: int,
    i: int,
)
    requires
        state.can_all(acts),
        !state.queue.contains_key(key),
        0 <= i < acts.len(),
        acts[i] == (Act::Grant { key, now }),
    ensures
        awaits_turn(acts.take(i), key),
{
    lemma_each_act_can_happen(state, acts, i);
    lemma_waiting_requests_were_registered(state, acts.take(i), key);
}

/// A registration is served at most once: between two grants under one key, a request is
/// registered under it again.
pub proof fn law_one_grant_per_registration(
    state: State,
    acts: Seq<Act>,
    key: Key,
    first: int,
    second: int,
)
    requires
        state.can_all(acts),
        !state.queue.contains_key(key),
        0 <= first < second < acts.len(),
        acts[first] matches Act::Grant { key: granted, .. } && granted == key,
        acts[second] matches Act::Grant { key: granted, .. } && granted == key,
    ensures
        exists|e: int| first < e < second && registers(#[trigger] acts[e], key),
{
    let before_second = acts.take(second);
    let now = match acts[second] {
        Act::Grant { now, .. } => now,
        _ => 0,
    };
    law_served_requests_were_ready(state, acts, key, now, second);
    let e = choose|e: int| #[trigger]
        waits_since(before_second, key, e) && marked_since(before_second, key, e);
    assert(before_second[first] == acts[first]);
    assert(before_second[e] == acts[e]);
    assert(takes_out(before_second[first], key));
}

/// Whether `r` is the ticket and the message of a request that drew the number `seq`, as
/// [`register`](super::scheduler::SchedulerHandle::register) gives them.
pub open spec fn registered<P>(r: (Ticket<P>, SchedMsg<P>), seq: u64, info: ReqInfo) -> bool {
    &&& r.0.key() == (info.size, seq)
    &&& r.1 matches SchedMsg::Enqueue { seq: drawn, info: sent, .. } && drawn == seq && sent
        == info
}

/// A ticket speaks of its own request: the one that its message registers is marked under
/// the ticket's key, and removed under it.
pub proof fn law_ticket_speaks_of_its_request<P>(
    state: State,
    r: (Ticket<P>, SchedMsg<P>),
    seq: u64,
    info: ReqInfo,
)
    requires
        registered(r, seq, info),
    ensures
        ({
            let key = r.0.key();
            let enqueued = state.after(r.1.act());
            let marked = enqueued.after(Act::SetReady { key });
            &&& enqueued.queue.contains_key(key)
            &&& enqueued.queue[key] == Pending { info, ready: false }
            &&& marked.queue[key] == Pending { info, ready: true }
            &&& !marked.after(Act::Remove { key }).queue.contains_key(key)
        }),
{
}

/// Requests that drew different numbers never share a key, so neither takes the place of
/// the other in the queue.
pub proof fn law_numbers_keep_requests_apart<P>(
    state: State,
    a: (Ticket<P>, SchedMsg<P>),
    m: u64,
    first: ReqInfo,
    b: (Ticket<P>, SchedMsg<P>),
    n: u64,
    second: ReqInfo,
)
    requires
        registered(a, m, first),
        registered(b, n, second),
        m != n,
    ensures
        a.0.key() != b.0.key(),
        ({
            let queue = state.after(a.1.act()).after(b.1.act()).queue;
            &&& queue.contains_key(a.0.key()) && queue[a.0.key()].info == first
            &&& queue.contains_key(b.0.key()) && queue[b.0.key()].info == second
        }),
{
}

/// Serves that `acts` started.
pub open spec fn started(acts: Seq<Act>) -> int
    decreases acts.len(),
{
    if acts.len() == 0 {
        0
    } else {
        started(acts.drop_last()) + if acts.last() is Grant {
            1int
        } else {
            0
        }
    }
}

/// Serves that `acts` ended.
pub open spec fn ended(acts: Seq<Act>) -> int
    decreases acts.len(),
{
    if acts.len() == 0 {
        0
    } else {
        ended(acts.drop_last()) + if acts.last() is End {
            1int
        } else {
            0
        }
    }
}

proof fn lemma_free_permits(state: State, acts: Seq<Act>)
    requires
        state.valid(),
        state.can_all(acts),
    ensures
        state.after_all(acts).valid(),
        state.after_all(acts).limits.free + started(acts) - ended(acts) == state.limits.free,
    decreases acts.len(),
{
    if acts.len() > 0 {
        let rest = acts.drop_last();
        lemma_free_permits(state, rest);
        let pre = state.after_all(rest);
        law_acts_keep_state_valid(pre, acts.last());
        match acts.last() {
            Act::Grant { key, now } => {
                law_ready_needs_every_limiter(pre.limits, now, pre.queue[key].info);
            },
            _ => {},
        }
    }
}

/// The hard cap: whatever happens to a new scheduler, the serves that are under way never
/// exceed the concurrency limit, and what is left of it is exactly what they do not use.
pub proof fn law_concurrency_cap(now: int, acts: Seq<Act>)
    requires
        0 <= now <= MAX_DURATION,
        State::fresh(now).can_all(acts),
    ensures
        started(acts) - ended(acts) <= CONCURRENCY_LIMIT,
        State::fresh(now).after_all(acts).limits.free == CONCURRENCY_LIMIT - (started(acts)
            - ended(acts)),
{
    lemma_free_permits(State::fresh(now), acts);
}

/// What `acts` took from the bandwidth limiter, from `state` on.
pub open spec fn traffic_grants(state: State, acts: Seq<Act>) -> Seq<Grant>
    decreases acts.len(),
{
    if acts.len() == 0 {
        Seq::empty()
    } else {
        let rest = acts.drop_last();
        match acts.last() {
            Act::Grant { key, now } => traffic_grants(state, rest).push(
                Grant { at: now, units: state.after_all(rest).queue[key].info.size as int },
            ),
            _ => traffic_grants(state, rest),
        }
    }
}

/// What `acts` took from the request-rate limiter.
pub open spec fn request_grants(acts: Seq<Act>) -> Seq<Grant>
    decreases acts.len(),
{
    if acts.len() == 0 {
        Seq::empty()
    } else {
        let rest = acts.drop_last();
        match acts.last() {
            Act::Grant { key, now } => request_grants(rest).push(Grant { at: now, units: 1 }),
            _ => request_grants(rest),
        }
    }
}

proof fn lemma_traffic_is_admitted(state: State, acts: Seq<Act>)
    requires
        state.valid(),
        state.can_all(acts),
    ensures
        state.limits.traffic.admits(traffic_grants(state, acts)),
        state.after_all(acts).limits.traffic == state.limits.traffic.consume_all(
            traffic_grants(state, acts),
        ),
        forall|i: int|
            0 <= i < traffic_grants(state, acts).len() ==> 0 <= (#[trigger] traffic_grants(
                state,
                acts,
            )[i]).units <= u32::MAX,
    decreases acts.len(),
{
    if acts.len() > 0 {
        let rest = acts.drop_last();
        lemma_traffic_is_admitted(state, rest);
        let pre = state.after_all(rest);
        match acts.last() {
            Act::Grant { key, now } => {
                law_ready_needs_every_limiter(pre.limits, now, pre.queue[key].info);
                assert(traffic_grants(state, acts).drop_last() =~= traffic_grants(state, rest));
            },
            _ => {},
        }
    }
}

proof fn lemma_requests_are_admitted(state: State, acts: Seq<Act>)
    requires
        state.valid(),
        state.can_all(acts),
    ensures
        state.limits.requests.admits(request_grants(acts)),
        state.after_all(acts).limits.requests == state.limits.requests.consume_all(
            request_grants(acts),
        ),
        total_units(request_grants(acts)) == request_grants(acts).len(),
        forall|i: int|
            0 <= i < request_grants(acts).len() ==> (#[trigger] request_grants(acts)[i]).units
                == 1,
    decreases acts.len(),
{
    if acts.len() > 0 {
        let rest = acts.drop_last();
        lemma_requests_are_admitted(state, rest);
        let pre = state.after_all(rest);
        match acts.last() {
            Act::Grant { key, now } => {
                law_ready_needs_every_limiter(pre.limits, now, pre.queue[key].info);
                assert(request_grants(acts).drop_last() =~= request_grants(rest));
            },
            _ => {},
        }
    }
}

/// The bandwidth limit: from any state on, the bytes that are granted take no longer at
/// the configured rate than the time from the first grant to the last plus the burst, or
/// plus the last response where that alone is larger than the burst.
pub proof fn law_bandwidth_limit(state: State, acts: Seq<Act>)
    requires
        state.valid(),
        state.can_all(acts),
        traffic_grants(state, acts).len() > 0,
    ensures
        ({
            let grants = traffic_grants(state, acts);
            let allowance = if grants.last().units > TRAFFIC_BURST {
                grants.last().units
            } else {
                TRAFFIC_BURST as int
            };
            TRAFFIC_INTERVAL * total_units(grants) <= grants.last().at - grants[0].at
                + TRAFFIC_INTERVAL * allowance
        }),
{
    let grants = traffic_grants(state, acts);
    lemma_traffic_is_admitted(state, acts);
    law_sustained_rate(state.limits.traffic, grants);
    law_total_time_counts_units(state.limits.traffic, grants);
    assert(grants[grants.len() - 1].units <= u32::MAX);
}

/// The request-rate limit: from any state on, the requests that are granted take no
/// longer at the configured rate than the time from the first grant to the last plus the
/// burst.
pub proof fn law_request_rate_limit(state: State, acts: Seq<Act>)
    requires
        state.valid(),
        state.can_all(acts),
        request_grants(acts).len() > 0,
    ensures
        ({
            let grants = request_grants(acts);
            REQUEST_INTERVAL * grants.len() <= grants.last().at - grants[0].at
                + REQUEST_INTERVAL * REQUEST_BURST
        }),
{
    let grants = request_grants(acts);
    lemma_requests_are_admitted(state, acts);
    law_sustained_rate(state.limits.requests, grants);
    law_total_time_counts_units(state.limits.requests, grants);
    assert(grants[grants.len() - 1].units == 1);
}

/// Dispatching goes by the clock: each request is granted at a time that had elapsed since
/// the clock was started and at which every limiter allowed it, and what is ready and still
/// waits at the end is blocked at such a time.
pub proof fn law_dispatch_goes_by_the_clock(
    clock: Clock,
    state: State,
    turns: Seq<Act>,
    now: Nanos,
    r: Option<Wakeup>,
)
    requires
        state.valid(),
        state.can_all(turns),
        forall|i: int| 0 <= i < turns.len() ==> timed_by(clock, #[trigger] turns[i]),
        clock.gave(now),
        state.after_all(turns).stopped(now as int, r),
    ensures
        forall|i: int|
            #![trigger turns[i]]
            0 <= i < turns.len() ==> (turns[i] matches Act::Grant { key, now: at } ==> exists|
                elapsed: Duration,
                reading: Nanos,
            |
                {
                    &&& #[trigger] Instant::elapsed.ensures((&clock.origin(),), elapsed)
                    &&& #[trigger] Duration::as_nanos.ensures((&elapsed,), reading)
                    &&& at == reading
                    &&& state.after_all(turns.take(i)).limits.decide(
                        reading as int,
                        state.after_all(turns.take(i)).queue[key].info,
                    ) is Ready
                }),
        exists|elapsed: Duration| #[trigger]
            Instant::elapsed.ensures((&clock.origin(),), elapsed) && Duration::as_nanos.ensures(
                (&elapsed,),
                now,
            ),
        forall|key: Key| #[trigger]
            state.after_all(turns).queue.contains_key(key) && state.after_all(
                turns,
            ).queue[key].ready ==> state.after_all(turns).limits.decide(
                now as int,
                state.after_all(turns).queue[key].info,
            ) is Blocked,
{
    assert forall|i: int|
        #![trigger turns[i]]
        0 <= i < turns.len() implies (turns[i] matches Act::Grant { key, now: at } ==> exists|
        elapsed: Duration,
        reading: Nanos,
    |
        {
            &&& #[trigger] Instant::elapsed.ensures((&clock.origin(),), elapsed)
            &&& #[trigger] Duration::as_nanos.ensures((&elapsed,), reading)
            &&& at == reading
            &&& state.after_all(turns.take(i)).limits.decide(
                reading as int,
                state.after_all(turns.take(i)).queue[key].info,
            ) is Ready
        }) by {
        match turns[i] {
            Act::Grant { key, now: at } => {
                lemma_each_act_can_happen(state, turns, i);
                let reading = choose|reading: Nanos| #[trigger]
                    clock.gave(reading) && reading == at;
                let elapsed = choose|elapsed: Duration| #[trigger]
                    Instant::elapsed.ensures((&clock.origin(),), elapsed)
                        && Duration::as_nanos.ensures((&elapsed,), reading);
                assert(Instant::elapsed.ensures((&clock.origin(),), elapsed));
                assert(Duration::as_nanos.ensures((&elapsed,), reading));
            },
            _ => {},
        }
    }
    lemma_free_permits(state, turns);
    let after = state.after_all(turns);
    assert forall|key: Key| #[trigger]
        after.queue.contains_key(key) && after.queue[key].ready implies after.limits.decide(
        now as int,
        after.queue[key].info,
    ) is Blocked by {
        match r {
            Some(wakeup) => law_blocked_next_blocks_all(after, now as int, wakeup, key),
            None => {},
        }
    }
}

/// Time is not wasted: dispatching never stops at a time at which a ready request is
/// allowed.
pub proof fn law_dispatch_stops_only_when_blocked(
    state: State,
    now: int,
    r: Option<Wakeup>,
    key: Key,
)
    requires
        state.valid(),
        state.queue.contains_key(key),
        state.queue[key].ready,
        state.limits.decide(now, state.queue[key].info) is Ready,
    ensures
        !state.stopped(now, r),
{
    if state.stopped(now, r) {
        match r {
            Some(wakeup) => law_blocked_next_blocks_all(state, now, wakeup, key),
            None => {},
        }
    }
}

/// A handler that still waits is not passed over: where its half of the channel never
/// counts as closed, its turn is a grant, and it is sent what was made of a new permit for
/// its own request.
pub proof fn law_waiting_handler_gets_its_permit<P, F: Fn(Permit<P>) -> P>(
    pre: State,
    grants: Map<Key, oneshot::Sender<P>>,
    turn: Act,
    key: Key,
    tx: UnboundedSender<SchedMsg<P>>,
    mint: F,
)
    requires
        handed_over(pre, grants, turn, tx, mint),
        takes_out(turn, key),
        is_turn(turn),
        !oneshot::Sender::<P>::is_closed.ensures((&grants[key],), true),
    ensures
        turn is Grant,
        exists|permit: Permit<P>, minted: P, sent: Result<(), P>|
            {
                &&& permit.granted() == pre.queue[key].info
                &&& permit.channel() == tx
                &&& #[trigger] mint.ensures((permit,), minted)
                &&& #[trigger] oneshot::Sender::<P>::send.ensures((grants[key], minted), sent)
            },
{
}

/// What dropped permits have sent, one after the other.
pub open spec fn sent_by<P>(permits: Seq<Permit<P>>) -> Seq<SchedMsg<P>>
    decreases permits.len(),
{
    if permits.len() == 0 {
        Seq::empty()
    } else {
        sent_by(permits.drop_last()) + permits.last().sent()
    }
}

/// What messages ask for, one after the other.
pub open spec fn acts_of<P>(messages: Seq<SchedMsg<P>>) -> Seq<Act> {
    messages.map_values(|message: SchedMsg<P>| message.act())
}

/// Each permit returns exactly what its grant took: permits that had sent nothing have sent
/// one message each once they are dropped, and when these are applied, as many serves are
/// free again as there were permits, whatever the requests were. Nothing else changes.
pub proof fn law_each_permit_ends_one_serve<P>(
    held: Seq<Permit<P>>,
    dropped: Seq<Permit<P>>,
    state: State,
)
    requires
        held.len() == dropped.len(),
        forall|i: int|
            0 <= i < held.len() ==> (#[trigger] held[i]).sent() == Seq::<SchedMsg<P>>::empty(),
        forall|i: int|
            0 <= i < dropped.len() ==> (#[trigger] dropped[i]).sent() == held[i].sent().push(
                SchedMsg::End { info: held[i].granted() },
            ),
    ensures
        sent_by(dropped).len() == held.len(),
        forall|i: int|
            0 <= i < held.len() ==> #[trigger] sent_by(dropped)[i] == (SchedMsg::<P>::End {
                info: held[i].granted(),
            }),
        ended(acts_of(sent_by(dropped))) == held.len(),
        state.after_all(acts_of(sent_by(dropped))).limits.free == state.limits.free + held.len(),
        state.after_all(acts_of(sent_by(dropped))).queue == state.queue,
        state.after_all(acts_of(sent_by(dropped))).limits.requests == state.limits.requests,
        state.after_all(acts_of(sent_by(dropped))).limits.traffic == state.limits.traffic,
    decreases held.len(),
{
    if held.len() > 0 {
        let rest = held.drop_last();
        let gone = dropped.drop_last();
        assert forall|i: int| 0 <= i < rest.len() implies (#[trigger] rest[i]).sent() == Seq::<
            SchedMsg<P>,
        >::empty() by {
            assert(rest[i] == held[i]);
        }
        assert forall|i: int| 0 <= i < gone.len() implies (#[trigger] gone[i]).sent()
            == rest[i].sent().push(SchedMsg::End { info: rest[i].granted() }) by {
            assert(gone[i] == dropped[i] && rest[i] == held[i]);
        }
        law_each_permit_ends_one_serve(rest, gone, state);
        let last = held.len() - 1;
        let end = SchedMsg::<P>::End { info: held[last].granted() };
        assert(held[last].sent() == Seq::<SchedMsg<P>>::empty());
        assert(dropped[last].sent() =~= seq![end]);
        assert(sent_by(dropped) =~= sent_by(gone).push(end));
        assert forall|i: int| 0 <= i < held.len() implies #[trigger] sent_by(dropped)[i] == (
        SchedMsg::<P>::End { info: held[i].granted() }) by {
            if i < last {
                assert(sent_by(dropped)[i] == sent_by(gone)[i]);
                assert(rest[i] == held[i]);
            }
        }
        assert(acts_of(sent_by(dropped)).drop_last() =~= acts_of(sent_by(gone)));
        assert(acts_of(sent_by(dropped)).last() == end.act());
    }
}

/// A dropped ticket takes its own request out of the queue with the one message that it
/// sends, and nothing else changes.
pub proof fn law_dropped_ticket_removes_one_request<P>(
    held: Ticket<P>,
    dropped: Ticket<P>,
    state: State,
)
    requires
        held.sent() == Seq::<SchedMsg<P>>::empty(),
        dropped.sent() == held.sent().push(SchedMsg::Remove { key: held.key() }),
    ensures
        dropped.sent().len() == 1,
        state.after_all(acts_of(dropped.sent())).queue == state.queue.remove(held.key()),
        state.after_all(acts_of(dropped.sent())).limits == state.limits,
{
    let acts = acts_of(dropped.sent());
    assert(acts.drop_last() =~= Seq::empty());
    assert(acts.last() == Act::Remove { key: held.key() });
    reveal_with_fuel(State::after_all, 2);
}

/// A request is registered under its ticket's key: its size, and a number that was drawn
/// from the handle's counter. The message names the half of a channel whose other half the
/// handler waits at.
pub proof fn law_enqueue_registers_its_ticket<P>(
    handle: SchedulerHandle<P>,
    info: ReqInfo,
    r: (Ticket<P>, oneshot::Receiver<P>),
    grants: Map<Key, oneshot::Sender<P>>,
)
    requires
        SchedulerHandle::<P>::enqueue.ensures((&handle, info), r),
    ensures
        r.0.key().0 == info.size,
        AtomicU64::fetch_add.ensures((&handle.counter(), 1u64, Ordering::Relaxed), r.0.key().1),
        exists|message: SchedMsg<P>|
            {
                &&& #[trigger] posted(handle.channel(), message)
                &&& registers(message.act(), r.0.key())
                &&& message.file(grants).contains_key(r.0.key())
                &&& oneshot::channel::<P>.ensures((), (message.file(grants)[r.0.key()], r.1))
            },
{
    let grant = choose|grant: oneshot::Sender<P>|
        {
            &&& #[trigger] are_halves(grant, r.1)
            &&& posted(handle.channel(), SchedMsg::Enqueue { seq: r.0.key().1, info, grant })
        };
    let message = SchedMsg::Enqueue { seq: r.0.key().1, info, grant };
    assert(posted(handle.channel(), message));
    assert(message.file(grants)[r.0.key()] == grant);
}

/// Two requests of one handle: each has the number that was drawn for it, so requests with
/// different draws never share a key, and of two requests of one size the one with the
/// earlier draw comes first.
pub proof fn law_numbers_order_the_requests<P>(
    handle: SchedulerHandle<P>,
    first: ReqInfo,
    a: (Ticket<P>, oneshot::Receiver<P>),
    second: ReqInfo,
    b: (Ticket<P>, oneshot::Receiver<P>),
)
    requires
        SchedulerHandle::<P>::enqueue.ensures((&handle, first), a),
        SchedulerHandle::<P>::enqueue.ensures((&handle, second), b),
    ensures
        exists|m: u64, n: u64|
            {
                &&& #[trigger] AtomicU64::fetch_add.ensures(
                    (&handle.counter(), 1u64, Ordering::Relaxed),
                    m,
                )
                &&& #[trigger] AtomicU64::fetch_add.ensures(
                    (&handle.counter(), 1u64, Ordering::Relaxed),
                    n,
                )
                &&& m != n ==> a.0.key() != b.0.key()
                &&& m < n && first.size == second.size ==> before(a.0.key(), b.0.key())
                &&& first.size < second.size ==> before(a.0.key(), b.0.key())
            },
{
    let m = a.0.key().1;
    let n = b.0.key().1;
    assert(drawn(handle.counter(), m));
    assert(drawn(handle.counter(), n));
    assert(AtomicU64::fetch_add.ensures((&handle.counter(), 1u64, Ordering::Relaxed), m));
    assert(AtomicU64::fetch_add.ensures((&handle.counter(), 1u64, Ordering::Relaxed), n));
}

} // verus!
