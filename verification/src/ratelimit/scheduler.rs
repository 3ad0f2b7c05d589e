//! The serve scheduler.
//!
//! # Flow
//! 1. The handler determines the response size and
//!    [`enqueue`](SchedulerHandle::enqueue)s a request.
//! 2. The request sits in a priority queue (smallest response first) until it is both
//!    *ready* (data available to stream) and allowed by every rate limiter.
//! 3. A single owner [`dispatch`](Scheduler::dispatch)es the smallest ready request
//!    whenever all limiters allow, handing back a [`Permit`] that is held for the whole
//!    response body.
//! 4. If the handler's own timeout elapses first, it drops its [`Ticket`], which removes
//!    the request from the queue, and resets the connection.
//!
//! Concurrency is handled by single ownership: the queue and all limiter state live
//! inside the [`Scheduler`] and are changed only via messages, so no shared locks are
//! taken on the hot path.
use std::collections::BTreeMap;
use std::sync::atomic::{AtomicU64, Ordering};

use tokio::sync::mpsc::UnboundedSender;
use tokio::sync::oneshot;
use tokio::time::Instant;
use vstd::prelude::*;

use super::limiters::RateLimiters;
use super::lines::{Line, PermitLine, Registry, TicketLine};
use super::state::{before, is_next, is_turn, none_ready, Act, Key, Pending, State};
use super::{Decision, ReqInfo, Wakeup};
use crate::clock::{Clock, Nanos, MAX_DURATION};

verus! {

/// The sending half of tokio's one-shot channel, which Verus treats as opaque.
#[verifier::external_type_specification]
#[verifier::external_body]
#[verifier::reject_recursive_types(T)]
pub struct ExOneshotSender<T>(oneshot::Sender<T>);

/// The receiving half of tokio's one-shot channel, which Verus treats as opaque.
#[verifier::external_type_specification]
#[verifier::external_body]
#[verifier::reject_recursive_types(T)]
pub struct ExOneshotReceiver<T>(oneshot::Receiver<T>);

/// What tokio's one-shot channel gives when it was closed with no value in it. Verus needs
/// it because awaiting the receiving half may give it.
#[verifier::external_type_specification]
#[verifier::external_body]
pub struct ExRecvError(oneshot::error::RecvError);

/// The sending half of tokio's unbounded channel, which Verus treats as opaque.
#[verifier::external_type_specification]
#[verifier::external_body]
#[verifier::reject_recursive_types(T)]
pub struct ExUnboundedSender<T>(UnboundedSender<T>);

/// `tokio::sync::oneshot::channel` makes a channel for one value. Nothing is claimed of
/// its two halves.
pub assume_specification<T>[ oneshot::channel::<T> ]() -> (oneshot::Sender<T>, oneshot::Receiver<
    T,
>);

/// `tokio::sync::oneshot::Sender::is_closed` tells whether the receiving half is gone.
/// That is up to its owner, so nothing is claimed of it.
pub assume_specification<T>[ oneshot::Sender::<T>::is_closed ](sender: &oneshot::Sender<T>) -> bool;

/// `tokio::sync::oneshot::Sender::send` hands the value to the receiving half. Where that
/// is gone, the value comes back; which of the two happens is up to its owner.
pub assume_specification<T>[ oneshot::Sender::<T>::send ](
    sender: oneshot::Sender<T>,
    t: T,
) -> (r: Result<(), T>)
    ensures
        r matches Err(back) ==> back == t,
;

/// The clone of a `tokio::sync::mpsc::UnboundedSender` is another handle of the same
/// channel.
pub assume_specification<T>[ <UnboundedSender<T> as Clone>::clone ](
    tx: &UnboundedSender<T>,
) -> (r: UnboundedSender<T>)
    ensures
        r == *tx,
;

/// `tokio::sync::mpsc::UnboundedSender::send` puts a message into the channel without
/// waiting. Where the receiving half is gone, the message comes back; which of the two
/// happens is up to its owner. It does not unwind, as long as the waker of the task that
/// waits at the other end does not.
#[verifier::external_body]
pub(crate) fn post<T>(line: &Line<T>, message: T) -> (r: Result<(), T>)
    ensures
        r matches Err(back) ==> back == message,
    opens_invariants none
    no_unwind
{
    match line.sender().send(message) {
        Ok(()) => Ok(()),
        Err(error) => Err(error.0),
    }
}

/// Whether `message` was put into the channel `tx`, as far as that is up to the sender.
pub closed spec fn posted<T>(tx: UnboundedSender<T>, message: T) -> bool {
    exists|line: Line<T>, r: Result<(), T>|
        line.channel() == tx && #[trigger] post::<T>.ensures((&line, message), r)
}

pub(crate) proof fn lemma_posted<T>(line: Line<T>, message: T, r: Result<(), T>)
    requires
        post::<T>.ensures((&line, message), r),
    ensures
        posted(line.channel(), message),
{
}

/// Whether these are the two halves of one channel.
pub open spec fn are_halves<T>(sender: oneshot::Sender<T>, receiver: oneshot::Receiver<T>) -> bool {
    oneshot::channel::<T>.ensures((), (sender, receiver))
}

/// Whether `n` was drawn from a counter: it is what the counter held when one was added.
pub open spec fn drawn(counter: AtomicU64, n: u64) -> bool {
    AtomicU64::fetch_add.ensures((&counter, 1u64, Ordering::Relaxed), n)
}

/// A message to the scheduler. `P` is what a handler receives when its request is
/// granted; it holds a [`Permit`].
#[verifier::reject_recursive_types(P)]
pub enum SchedMsg<P> {
    /// Registers a request.
    Enqueue { seq: u64, info: ReqInfo, grant: oneshot::Sender<P> },
    /// Marks a request as ready to serve.
    SetReady { key: Key },
    /// Removes a request from the queue.
    Remove { key: Key },
    /// Reports that a serve has ended.
    End { info: ReqInfo },
}

impl<P> SchedMsg<P> {
    /// What the message asks for.
    pub open spec fn act(self) -> Act {
        match self {
            SchedMsg::Enqueue { seq, info, grant } => Act::Enqueue { seq, info },
            SchedMsg::SetReady { key } => Act::SetReady { key },
            SchedMsg::Remove { key } => Act::Remove { key },
            SchedMsg::End { info } => Act::End { info },
        }
    }

    /// Where handlers wait for their grants, after the message.
    pub open spec fn file(self, grants: Map<Key, oneshot::Sender<P>>) -> Map<
        Key,
        oneshot::Sender<P>,
    > {
        match self {
            SchedMsg::Enqueue { seq, info, grant } => grants.insert((info.size, seq), grant),
            SchedMsg::Remove { key } => grants.remove(key),
            _ => grants,
        }
    }
}

/// A request in the queue.
#[verifier::reject_recursive_types(P)]
pub struct Waiter<P> {
    /// The request.
    pub info: ReqInfo,
    /// Whether data is available to stream.
    pub ready: bool,
    /// Where the handler waits for its grant.
    pub grant: oneshot::Sender<P>,
}

impl<P> View for Waiter<P> {
    type V = Pending;

    open spec fn view(&self) -> Pending {
        Pending { info: self.info, ready: self.ready }
    }
}

/// What the scheduler does next.
#[verifier::reject_recursive_types(P)]
pub enum Next<P> {
    /// Nothing is ready to serve.
    Idle,
    /// The next request is blocked.
    Blocked(Wakeup),
    /// The next request is allowed, and has left the queue.
    Allowed(Waiter<P>),
}

/// What the scheduler waits for.
#[verifier::reject_recursive_types(P)]
pub enum Event<P> {
    /// A message arrived.
    Message(SchedMsg<P>),
    /// The wakeup of the limiters came.
    Woken,
    /// Nobody can send messages any more.
    Closed,
}

/// The owner of the queue and of all limiter state.
#[verifier::reject_recursive_types(P)]
pub struct Scheduler<P> {
    clock: Clock,
    queue: BTreeMap<Key, Waiter<P>>,
    limiters: RateLimiters,
}

impl<P> View for Scheduler<P> {
    type V = State;

    closed spec fn view(&self) -> State {
        State {
            queue: self.queue@.map_values(|waiter: Waiter<P>| waiter@),
            limits: self.limiters@,
        }
    }
}

proof fn lemma_keys_are_ordered()
    ensures
        vstd::laws_cmp::obeys_cmp::<Key>(),
        vstd::std_specs::btree::key_obeys_cmp_spec::<Key>(),
{
    broadcast use {vstd::std_specs::btree::group_btree_axioms, vstd::laws_cmp::group_laws_cmp};

    assert(vstd::laws_cmp::obeys_cmp::<Key>());
    assert(vstd::std_specs::btree::key_obeys_cmp_spec::<Key>());
}

proof fn lemma_increasing(keys: Seq<Key>, i: int, j: int)
    requires
        vstd::std_specs::btree::increasing_seq(keys),
        0 <= i < j < keys.len(),
    ensures
        before(keys[i], keys[j]),
{
    broadcast use vstd::std_specs::btree::axiom_increasing_seq_meaning;

    lemma_keys_are_ordered();
    assert(vstd::std_specs::cmp::OrdSpec::cmp_spec(&keys[i], &keys[j]) is Less);
}

impl<P> Scheduler<P> {
    /// The state is valid, and what observers read of the limiters is up to date.
    pub open spec fn wf(&self) -> bool {
        self@.valid() && self.published()
    }

    /// The rate limiters have published their arrival times.
    pub closed spec fn published(&self) -> bool {
        self.limiters.published()
    }

    /// The clock that says when a request is looked at.
    pub closed spec fn clock(&self) -> Clock {
        self.clock
    }

    /// Where the handlers of the waiting requests wait for their grants.
    pub closed spec fn grants(&self) -> Map<Key, oneshot::Sender<P>> {
        self.queue@.map_values(|waiter: Waiter<P>| waiter.grant)
    }

    /// A scheduler with an empty queue, whose limiters are at rest.
    pub fn new() -> (r: Self)
        ensures
            r.wf(),
            r@ == State::fresh(0),
            Instant::now.ensures((), r.clock().origin()),
            r.grants() == Map::<Key, oneshot::Sender<P>>::empty(),
    {
        let r: Self = Scheduler {
            clock: Clock::start(),
            queue: BTreeMap::new(),
            limiters: RateLimiters::new(0),
        };
        assert(r@.queue =~= Map::empty());
        assert(r.grants() =~= Map::empty());
        r
    }

    /// The smallest ready request.
    pub fn next_ready(&self) -> (r: Option<Key>)
        ensures
            match r {
                Some(key) => is_next(self@.queue, key),
                None => none_ready(self@.queue),
            },
    {
        broadcast use vstd::std_specs::btree::group_btree_axioms;

        proof {
            lemma_keys_are_ordered();
        }
        let ghost queue = self.queue@;
        // The entries come in key order.
        let waiters = self.queue.iter();
        let ghost entries = vstd::std_specs::iter::IteratorSpec::remaining(&waiters);
        let ghost keys = entries.map_values(|entry: (&Key, &Waiter<P>)| *entry.0);
        assert(vstd::std_specs::btree::increasing_seq(keys));
        for entry in it: self.queue.iter()
            invariant
                queue == self.queue@,
                it.seq() == entries,
                keys == entries.map_values(|entry: (&Key, &Waiter<P>)| *entry.0),
                vstd::std_specs::btree::increasing_seq(keys),
                forall|j: int| 0 <= j < it.index() ==> !(#[trigger] entries[j]).1.ready,
                forall|key: Key| #[trigger]
                    queue.contains_key(key) ==> entries.contains((&key, &queue[key])),
                forall|j: int|
                    0 <= j < entries.len() ==> queue.contains_key(*(#[trigger] entries[j]).0)
                        && queue[*entries[j].0] == *entries[j].1,
        {
            let (key, waiter) = entry;
            if waiter.ready {
                proof {
                    let i = it.index();
                    assert(entries[i] == (key, waiter));
                    assert forall|other: Key| #[trigger]
                        self@.queue.contains_key(other) && self@.queue[other].ready implies other
                        == *key || before(*key, other) by {
                        assert(queue.contains_key(other));
                        let j = choose|j: int|
                            0 <= j < entries.len() && entries[j] == (&other, &queue[other]);
                        assert(j >= i);
                        if j > i {
                            lemma_increasing(keys, i, j);
                        }
                    }
                }
                return Some(*key);
            }
        }
        assert forall|key: Key| #[trigger]
            self@.queue.contains_key(key) implies !self@.queue[key].ready by {
            assert(queue.contains_key(key));
        }
        None
    }

    /// Takes the smallest ready request out of the queue if every limiter allows it at
    /// `now`.
    pub fn take_next(&mut self, now: Nanos) -> (r: Next<P>)
        requires
            old(self).wf(),
            now <= MAX_DURATION,
        ensures
            final(self).wf(),
            final(self).clock() == old(self).clock(),
            match r {
                Next::Idle => {
                    &&& none_ready(old(self)@.queue)
                    &&& final(self)@ == old(self)@
                    &&& final(self).grants() == old(self).grants()
                },
                Next::Blocked(wakeup) => {
                    &&& old(self)@.stopped(now as int, Some(wakeup))
                    &&& final(self)@ == old(self)@
                    &&& final(self).grants() == old(self).grants()
                },
                Next::Allowed(waiter) => exists|key: Key|
                    {
                        &&& #[trigger] is_next(old(self)@.queue, key)
                        &&& waiter@ == old(self)@.queue[key]
                        &&& old(self)@.limits.decide(now as int, waiter.info) is Ready
                        &&& final(self)@.queue == old(self)@.queue.remove(key)
                        &&& final(self)@.limits == old(self)@.limits
                        &&& old(self).grants().contains_key(key)
                        &&& waiter.grant == old(self).grants()[key]
                        &&& final(self).grants() == old(self).grants().remove(key)
                    },
            },
    {
        broadcast use vstd::std_specs::btree::group_btree_axioms;

        let key = match self.next_ready() {
            Some(key) => key,
            None => return Next::Idle,
        };
        proof {
            lemma_keys_are_ordered();
        }
        assert(self.queue@.contains_key(key));
        let info = match self.queue.get(&key) {
            Some(waiter) => waiter.info,
            None => return Next::Idle,
        };
        match self.limiters.check(now, &info) {
            Decision::Blocked(wakeup) => Next::Blocked(wakeup),
            Decision::Ready => {
                match self.queue.remove(&key) {
                    Some(waiter) => {
                        assert(self@.queue =~= old(self)@.queue.remove(key));
                        assert(self.grants() =~= old(self).grants().remove(key));
                        Next::Allowed(waiter)
                    },
                    None => Next::Idle,
                }
            },
        }
    }

    /// Commits the grant of an allowed request, unless its handler already gave up: no
    /// capacity is consumed for a serve that will never happen. Tells whether the request
    /// is granted.
    pub fn commit(&mut self, now: Nanos, info: &ReqInfo, closed: bool) -> (granted: bool)
        requires
            old(self).wf(),
            old(self)@.limits.free > 0,
            now <= MAX_DURATION,
        ensures
            final(self).wf(),
            granted == !closed,
            final(self).clock() == old(self).clock(),
            final(self)@.queue == old(self)@.queue,
            final(self).grants() == old(self).grants(),
            final(self)@.limits == if closed {
                old(self)@.limits
            } else {
                old(self)@.limits.start(now as int, *info)
            },
    {
        if closed {
            false
        } else {
            self.limiters.on_start(now, info);
            assert(self@.queue == old(self)@.queue);
            true
        }
    }

    /// Settles an allowed request that has left the queue: commits its grant and gives its
    /// permit, with where its own handler waits for it; or nothing, where the handler
    /// already gave up.
    pub fn settle(
        &mut self,
        now: Nanos,
        waiter: Waiter<P>,
        closed: bool,
        tx: &UnboundedSender<SchedMsg<P>>,
    ) -> (r: Option<(oneshot::Sender<P>, Permit<P>)>)
        requires
            old(self).wf(),
            old(self)@.limits.free > 0,
            now <= MAX_DURATION,
        ensures
            final(self).wf(),
            final(self)@.queue == old(self)@.queue,
            final(self).grants() == old(self).grants(),
            final(self)@.limits == if closed {
                old(self)@.limits
            } else {
                old(self)@.limits.start(now as int, waiter.info)
            },
            match r {
                None => closed,
                Some((grant, permit)) => {
                    &&& !closed
                    &&& grant == waiter.grant
                    &&& permit.granted() == waiter.info
                    &&& permit.channel() == *tx
                    &&& permit.sent() == Seq::<SchedMsg<P>>::empty()
                },
            },
            final(self).clock() == old(self).clock(),
    {
        // Commit before building the permit, so that the grant and the permit's eventual
        // end are paired exactly: even if the handler gives up meanwhile, the permit that
        // comes back releases the capacity.
        if closed {
            None
        } else {
            let slot = self.limiters.claim(now, &waiter.info);
            assert(self@.queue == old(self)@.queue);
            let line = PermitLine::new(tx, slot);
            Some((waiter.grant, Permit { line, info: waiter.info }))
        }
    }

    /// Whether a message can be applied: the end of a serve cannot where the semaphore is
    /// full to its own limit.
    pub fn accepts(&self, msg: &SchedMsg<P>) -> (r: bool)
        ensures
            r == self@.can(msg.act()),
    {
        match msg {
            SchedMsg::End { .. } => self.limiters.can_end(),
            _ => true,
        }
    }

    /// Applies a message.
    pub fn apply(&mut self, msg: SchedMsg<P>)
        requires
            old(self).wf(),
            old(self)@.can(msg.act()),
        ensures
            final(self).wf(),
            final(self)@ == old(self)@.after(msg.act()),
            final(self).clock() == old(self).clock(),
            final(self).grants() == msg.file(old(self).grants()),
    {
        broadcast use vstd::std_specs::btree::group_btree_axioms;

        proof {
            lemma_keys_are_ordered();
        }
        let ghost queue = self@.queue;
        match msg {
            SchedMsg::Enqueue { seq, info, grant } => {
                self.queue.insert((info.size, seq), Waiter { info, ready: false, grant });
                assert(self@.queue =~= queue.insert(
                    (info.size, seq),
                    Pending { info, ready: false },
                ));
            },
            SchedMsg::SetReady { key } => {
                if let Some(waiter) = self.queue.remove(&key) {
                    let waiter = Waiter { info: waiter.info, ready: true, grant: waiter.grant };
                    self.queue.insert(key, waiter);
                    assert(self@.queue =~= queue.insert(
                        key,
                        Pending { ready: true, ..queue[key] },
                    ));
                } else {
                    assert(self@.queue =~= queue);
                }
            },
            SchedMsg::Remove { key } => {
                self.queue.remove(&key);
                assert(self@.queue =~= queue.remove(key));
            },
            SchedMsg::End { info } => self.limiters.on_end(&info),
        }
        assert(self.grants() =~= msg.file(old(self).grants()));
    }

    /// Reacts to what the scheduler waited for. Tells whether it goes on: it ends when
    /// nobody can send messages any more.
    pub fn on_event(&mut self, event: Event<P>) -> (go_on: bool)
        requires
            old(self).wf(),
            event matches Event::Message(msg) ==> old(self)@.can(msg.act()),
        ensures
            final(self).wf(),
            go_on == !(event is Closed),
            final(self).clock() == old(self).clock(),
            final(self)@ == match event {
                Event::Message(msg) => old(self)@.after(msg.act()),
                _ => old(self)@,
            },
            final(self).grants() == match event {
                Event::Message(msg) => msg.file(old(self).grants()),
                _ => old(self).grants(),
            },
    {
        match event {
            Event::Message(msg) => {
                self.apply(msg);
                true
            },
            Event::Woken => true,
            Event::Closed => false,
        }
    }

    /// Dispatches as many ready requests as the limiters currently allow, smallest first.
    ///
    /// Each granted handler receives what `mint` makes of its [`Permit`], which reports
    /// the end of the serve through `tx`. Returns when nothing is ready (`None`), or when
    /// the limiters block the next request, with the wakeup after which to look again.
    ///
    /// The clock decides when each request is looked at, and the handlers decide whether
    /// they still wait; whatever they decide, the scheduler goes through turns that
    /// [`State::can`] allows, one request each, at readings of its clock. It hands a permit
    /// to the handler of each request that it grants, and skips those alone whose handlers
    /// gave up.
    pub fn dispatch<F: Fn(Permit<P>) -> P>(
        &mut self,
        tx: &UnboundedSender<SchedMsg<P>>,
        mint: &F,
    ) -> (r: Option<Wakeup>)
        requires
            old(self).wf(),
            forall|permit: Permit<P>| #[trigger] mint.requires((permit,)),
        ensures
            final(self).wf(),
            exists|turns: Seq<Act>, now: Nanos|
                {
                    &&& now <= MAX_DURATION
                    &&& old(self).clock().gave(now)
                    &&& #[trigger] old(self)@.can_all(turns)
                    &&& forall|i: int|
                        #![trigger turns[i]]
                        0 <= i < turns.len() ==> {
                            &&& timed_by(old(self).clock(), turns[i])
                            &&& handed_over(
                                old(self)@.after_all(turns.take(i)),
                                old(self).grants(),
                                turns[i],
                                *tx,
                                *mint,
                            )
                        }
                    &&& forall|i: int| 0 <= i < turns.len() ==> is_turn(#[trigger] turns[i])
                    &&& forall|i: int|
                        #![trigger turns[i]]
                        0 <= i < turns.len() ==> minted_for(
                            old(self)@.after_all(turns.take(i)),
                            turns[i],
                            *tx,
                            *mint,
                        )
                    &&& final(self)@ == old(self)@.after_all(turns)
                    &&& #[trigger] final(self)@.stopped(now as int, r)
                },
            final(self).grants() == old(self).grants().restrict(final(self)@.queue.dom()),
            final(self).clock() == old(self).clock(),
    {
        let ghost start = self@;
        let ghost mut turns: Seq<Act> = Seq::empty();
        loop
            invariant
                self.wf(),
                self.clock() == old(self).clock(),
                forall|i: int|
                    #![trigger turns[i]]
                    0 <= i < turns.len() ==> {
                        &&& timed_by(old(self).clock(), turns[i])
                        &&& handed_over(
                            start.after_all(turns.take(i)),
                            old(self).grants(),
                            turns[i],
                            *tx,
                            *mint,
                        )
                    },
                forall|permit: Permit<P>| #[trigger] mint.requires((permit,)),
                start.can_all(turns),
                forall|i: int| 0 <= i < turns.len() ==> is_turn(#[trigger] turns[i]),
                forall|i: int|
                    #![trigger turns[i]]
                    0 <= i < turns.len() ==> minted_for(
                        start.after_all(turns.take(i)),
                        turns[i],
                        *tx,
                        *mint,
                    ),
                self@ == start.after_all(turns),
                start == old(self)@,
                self.grants() == old(self).grants().restrict(self@.queue.dom()),
            decreases self@.queue.len(),
        {
            let now = self.clock.now();
            let ghost pre = self@;
            proof {
                broadcast use vstd::std_specs::btree::group_btree_axioms;

                assert(pre.queue.dom() =~= self.queue@.dom());
            }
            match self.take_next(now) {
                Next::Idle => {
                    assert(self@.stopped(now as int, None));
                    return None;
                },
                Next::Blocked(wakeup) => {
                    return Some(wakeup);
                },
                Next::Allowed(waiter) => {
                    let closed = waiter.grant.is_closed();
                    let ghost key = choose|key: Key|
                        {
                            &&& #[trigger] is_next(pre.queue, key)
                            &&& waiter@ == pre.queue[key]
                            &&& self@.queue == pre.queue.remove(key)
                            &&& waiter.grant == old(self).grants()[key]
                        };
                    if let Some((grant, permit)) = self.settle(now, waiter, closed, tx) {
                        let _ = grant.send(mint(permit));
                    }
                    proof {
                        let turn = if closed {
                            Act::Skip { key, now: now as int }
                        } else {
                            Act::Grant { key, now: now as int }
                        };
                        let longer = turns.push(turn);
                        assert(longer.drop_last() =~= turns);
                        assert forall|i: int|
                            #![trigger longer[i]]
                            0 <= i < longer.len() implies {
                            &&& minted_for(start.after_all(longer.take(i)), longer[i], *tx, *mint)
                            &&& timed_by(old(self).clock(), longer[i])
                            &&& handed_over(
                                start.after_all(longer.take(i)),
                                old(self).grants(),
                                longer[i],
                                *tx,
                                *mint,
                            )
                        } by {
                            assert(longer.take(i) =~= turns.take(i));
                            if i < turns.len() {
                                assert(longer[i] == turns[i]);
                            } else {
                                assert(turns.take(i) =~= turns);
                            }
                        }
                        turns = longer;
                    }
                },
            }
        }
    }
}

/// Whether a grant from the state `pre` made a permit for the request that it took out of
/// the queue, which reports its end through `tx`, and had `mint` make of it what the
/// handler receives.
pub open spec fn minted_for<P, F: Fn(Permit<P>) -> P>(
    pre: State,
    turn: Act,
    tx: UnboundedSender<SchedMsg<P>>,
    mint: F,
) -> bool {
    turn matches Act::Grant { key, now } ==> exists|permit: Permit<P>, minted: P|
        {
            &&& permit.granted() == pre.queue[key].info
            &&& permit.channel() == tx
            &&& #[trigger] mint.ensures((permit,), minted)
        }
}

/// Whether a turn came at a reading of `clock`.
pub open spec fn timed_by(clock: Clock, turn: Act) -> bool {
    match turn {
        Act::Grant { now, .. } | Act::Skip { now, .. } => exists|reading: Nanos| #[trigger]
            clock.gave(reading) && reading == now,
        _ => true,
    }
}

/// Whether a turn from the state `pre` dealt with the handler that waits in `grants` for
/// the request: a grant sent it what `mint` made of a new permit for the request, which
/// reports its end through `tx`, and only a handler that had given up was skipped.
pub open spec fn handed_over<P, F: Fn(Permit<P>) -> P>(
    pre: State,
    grants: Map<Key, oneshot::Sender<P>>,
    turn: Act,
    tx: UnboundedSender<SchedMsg<P>>,
    mint: F,
) -> bool {
    match turn {
        Act::Grant { key, .. } => {
            &&& oneshot::Sender::<P>::is_closed.ensures((&grants[key],), false)
            &&& exists|permit: Permit<P>, minted: P, sent: Result<(), P>|
                {
                    &&& permit.granted() == pre.queue[key].info
                    &&& permit.channel() == tx
                    &&& permit.sent() == Seq::<SchedMsg<P>>::empty()
                    &&& #[trigger] mint.ensures((permit,), minted)
                    &&& #[trigger] oneshot::Sender::<P>::send.ensures((grants[key], minted), sent)
                }
        },
        Act::Skip { key, .. } => oneshot::Sender::<P>::is_closed.ensures((&grants[key],), true),
        _ => true,
    }
}

/// Proof that a serve was granted by every rate limiter. Must be held for the entire
/// response body; dropping it releases the serve (semaphore-style limiters react to
/// this).
#[verifier::reject_recursive_types(P)]
pub struct Permit<P> {
    line: PermitLine<P>,
    info: ReqInfo,
}

impl<P> Drop for Permit<P> {
    fn drop(&mut self)
        ensures
            final(self).channel() == old(self).channel(),
            final(self).granted() == old(self).granted(),
            final(self).sent() == old(self).sent().push(SchedMsg::End { info: old(self).granted() }),
            posted(old(self).channel(), SchedMsg::End { info: old(self).granted() }),
        opens_invariants none
        no_unwind
    {
        let msg = self.end_msg();
        self.line.end(msg);
    }
}

impl<P> Permit<P> {
    /// The channel through which the end of the serve is reported.
    pub closed spec fn channel(&self) -> UnboundedSender<SchedMsg<P>> {
        self.line.channel()
    }

    /// What the permit has sent through the channel.
    pub closed spec fn sent(&self) -> Seq<SchedMsg<P>> {
        self.line.sent()
    }

    /// The request that was granted.
    pub closed spec fn granted(&self) -> ReqInfo {
        self.info
    }

    /// The message that reports the end of the serve.
    pub fn end_msg(&self) -> (r: SchedMsg<P>)
        ensures
            r == (SchedMsg::<P>::End { info: self.granted() }),
        opens_invariants none
        no_unwind
    {
        SchedMsg::End { info: self.info }
    }
}

/// The key under which a request waits, and the message that registers it.
pub fn registration<P>(seq: u64, info: ReqInfo, grant: oneshot::Sender<P>) -> (r: (
    Key,
    SchedMsg<P>,
))
    ensures
        r.0 == (info.size, seq),
        r.1 == (SchedMsg::Enqueue { seq, info, grant }),
{
    ((info.size, seq), SchedMsg::Enqueue { seq, info, grant })
}

/// Shared handle used by request handlers to talk to the scheduler.
#[verifier::reject_recursive_types(P)]
pub struct SchedulerHandle<P> {
    line: Registry<P>,
    seq: AtomicU64,
}

impl<P> SchedulerHandle<P> {
    /// The channel to the scheduler.
    pub closed spec fn channel(&self) -> UnboundedSender<SchedMsg<P>> {
        self.line.channel()
    }

    /// The counter that numbers the requests.
    pub closed spec fn counter(&self) -> AtomicU64 {
        self.seq
    }

    /// A handle of the scheduler at the other end of `tx`. Requests are numbered from 0.
    pub fn new(tx: UnboundedSender<SchedMsg<P>>) -> (r: Self)
        ensures
            r.channel() == tx,
            AtomicU64::new.ensures((0u64,), r.counter()),
    {
        SchedulerHandle { line: Registry::new(tx), seq: AtomicU64::new(0) }
    }

    /// The ticket of the request that draws the number `seq`, and the message that
    /// registers it.
    pub fn register(&self, seq: u64, info: ReqInfo, grant: oneshot::Sender<P>) -> (r: (
        Ticket<P>,
        SchedMsg<P>,
    ))
        ensures
            r.0.key() == (info.size, seq),
            r.0.channel() == self.channel(),
            r.0.sent() == Seq::<SchedMsg<P>>::empty(),
            r.1 == (SchedMsg::Enqueue { seq, info, grant }),
    {
        let (key, msg) = registration(seq, info, grant);
        (Ticket { key, line: self.line.for_ticket() }, msg)
    }

    /// Registers a request. The returned [`Ticket`] keeps the request in the queue until
    /// dropped; awaiting the receiver yields a [`Permit`] once the scheduler grants the
    /// request. Newly enqueued requests start *not ready*; call [`Ticket::set_ready`] once
    /// data is available to stream.
    ///
    /// Which number the request gets depends on who else registers one: it is drawn from
    /// the handle's counter.
    pub fn enqueue(&self, info: ReqInfo) -> (r: (Ticket<P>, oneshot::Receiver<P>))
        ensures
            r.0.key().0 == info.size,
            r.0.channel() == self.channel(),
            r.0.sent() == Seq::<SchedMsg<P>>::empty(),
            drawn(self.counter(), r.0.key().1),
            exists|grant: oneshot::Sender<P>|
                {
                    &&& #[trigger] are_halves(grant, r.1)
                    &&& posted(
                        self.channel(),
                        SchedMsg::Enqueue { seq: r.0.key().1, info, grant },
                    )
                },
    {
        let seq = self.seq.fetch_add(1, Ordering::Relaxed);
        let (grant_tx, grant_rx) = oneshot::channel();
        let (ticket, msg) = self.register(seq, info, grant_tx);
        self.line.register(msg);
        let result = (ticket, grant_rx);
        assert(are_halves(grant_tx, result.1));
        assert(posted(
            self.channel(),
            SchedMsg::Enqueue { seq: result.0.key().1, info, grant: grant_tx },
        ));
        result
    }
}

/// Keeps a request registered in the scheduler queue. Dropping it (on timeout, early
/// error, or after a grant) removes the request from the queue; the removal is
/// idempotent, so dropping after a grant is harmless.
#[verifier::reject_recursive_types(P)]
pub struct Ticket<P> {
    key: Key,
    line: TicketLine<P>,
}

impl<P> Ticket<P> {
    /// The key under which the request waits.
    pub closed spec fn key(&self) -> Key {
        self.key
    }

    /// The channel to the scheduler.
    pub closed spec fn channel(&self) -> UnboundedSender<SchedMsg<P>> {
        self.line.channel()
    }

    /// What the ticket has sent through the channel on being dropped.
    pub closed spec fn sent(&self) -> Seq<SchedMsg<P>> {
        self.line.sent()
    }

    /// The message that marks the request as ready.
    pub fn ready_msg(&self) -> (r: SchedMsg<P>)
        ensures
            r == (SchedMsg::<P>::SetReady { key: self.key() }),
    {
        SchedMsg::SetReady { key: self.key }
    }

    /// The message that removes the request from the queue.
    pub fn remove_msg(&self) -> (r: SchedMsg<P>)
        ensures
            r == (SchedMsg::<P>::Remove { key: self.key() }),
        opens_invariants none
        no_unwind
    {
        SchedMsg::Remove { key: self.key }
    }

    /// Marks the request as ready to serve (data is available to stream). Does nothing
    /// where the scheduler is gone.
    pub fn set_ready(&self)
        ensures
            posted(self.channel(), SchedMsg::SetReady { key: self.key() }),
    {
        self.line.mark(self.ready_msg());
    }
}

impl<P> Drop for Ticket<P> {
    fn drop(&mut self)
        ensures
            final(self).channel() == old(self).channel(),
            final(self).key() == old(self).key(),
            final(self).sent() == old(self).sent().push(SchedMsg::Remove { key: old(self).key() }),
            posted(old(self).channel(), SchedMsg::Remove { key: old(self).key() }),
        opens_invariants none
        no_unwind
    {
        let msg = self.remove_msg();
        self.line.remove(msg);
    }
}

} // verus!
