//! The lines to the scheduler: who can send it which message.
//!
//! Handles register requests, tickets mark and remove theirs, and only what holds a taken
//! [`Slot`] reports the end of a serve.
use tokio::sync::mpsc::UnboundedSender;
use vstd::prelude::*;

use super::permits::Slot;
use super::scheduler::{posted, SchedMsg};

mod outbox;

pub(crate) use outbox::{Line, Outbox};

verus! {

/// The line of a handle, which registers requests.
#[verifier::reject_recursive_types(P)]
pub(crate) struct Registry<P> {
    outbox: Outbox<SchedMsg<P>>,
}

impl<P> Registry<P> {
    /// The channel to the scheduler.
    pub(crate) closed spec fn channel(&self) -> UnboundedSender<SchedMsg<P>> {
        self.outbox.channel()
    }

    /// The line to the scheduler at the other end of `tx`.
    pub(crate) fn new(tx: UnboundedSender<SchedMsg<P>>) -> (r: Self)
        ensures
            r.channel() == tx,
    {
        Registry { outbox: Outbox::new(tx) }
    }

    /// Registers a request.
    pub(crate) fn register(&self, message: SchedMsg<P>)
        requires
            message is Enqueue,
        ensures
            posted(self.channel(), message),
    {
        self.outbox.call_out(message);
    }

    /// A line for a ticket.
    pub(crate) fn for_ticket(&self) -> (r: TicketLine<P>)
        ensures
            r.channel() == self.channel(),
            r.sent() == Seq::<SchedMsg<P>>::empty(),
    {
        TicketLine { outbox: self.outbox.another() }
    }
}

/// The line of a ticket, which marks its request and removes it.
#[verifier::reject_recursive_types(P)]
pub(crate) struct TicketLine<P> {
    outbox: Outbox<SchedMsg<P>>,
}

impl<P> TicketLine<P> {
    /// The channel to the scheduler.
    pub(crate) closed spec fn channel(&self) -> UnboundedSender<SchedMsg<P>> {
        self.outbox.channel()
    }

    /// The removals that were sent.
    pub(crate) closed spec fn sent(&self) -> Seq<SchedMsg<P>> {
        self.outbox.sent()
    }

    /// Marks a request as ready.
    pub(crate) fn mark(&self, message: SchedMsg<P>)
        requires
            message is SetReady,
        ensures
            posted(self.channel(), message),
    {
        self.outbox.call_out(message);
    }

    /// Removes a request.
    pub(crate) fn remove(&mut self, message: SchedMsg<P>)
        requires
            message is Remove,
        ensures
            final(self).channel() == old(self).channel(),
            final(self).sent() == old(self).sent().push(message),
            posted(old(self).channel(), message),
        opens_invariants none
        no_unwind
    {
        self.outbox.put(message);
    }
}

/// The line of a permit, which reports the end of the serve that holds the slot.
#[verifier::reject_recursive_types(P)]
pub(crate) struct PermitLine<P> {
    outbox: Outbox<SchedMsg<P>>,
    _slot: Slot,
}

impl<P> PermitLine<P> {
    /// The channel to the scheduler.
    pub(crate) closed spec fn channel(&self) -> UnboundedSender<SchedMsg<P>> {
        self.outbox.channel()
    }

    /// The ends that were reported.
    pub(crate) closed spec fn sent(&self) -> Seq<SchedMsg<P>> {
        self.outbox.sent()
    }

    /// The line of the serve that holds `slot`.
    pub(crate) fn new(tx: &UnboundedSender<SchedMsg<P>>, slot: Slot) -> (r: Self)
        ensures
            r.channel() == *tx,
            r.sent() == Seq::<SchedMsg<P>>::empty(),
    {
        PermitLine { outbox: Outbox::new(tx.clone()), _slot: slot }
    }

    /// Reports the end of the serve.
    pub(crate) fn end(&mut self, message: SchedMsg<P>)
        requires
            message is End,
        ensures
            final(self).channel() == old(self).channel(),
            final(self).sent() == old(self).sent().push(message),
            posted(old(self).channel(), message),
        opens_invariants none
        no_unwind
    {
        self.outbox.put(message);
    }
}

} // verus!
