//! Posting into a channel, with the record of what was posted.
//!
//! The channel is reached only through the handles of this module, so nothing that holds an
//! [`Outbox`] by `&mut` posts a message that is not in the record.
use tokio::sync::mpsc::UnboundedSender;
use vstd::prelude::*;

use super::super::scheduler::{lemma_posted, post, posted};

verus! {

/// A handle of a channel, made here alone.
#[verifier::reject_recursive_types(T)]
pub(crate) struct Line<T> {
    tx: UnboundedSender<T>,
}

impl<T> Line<T> {
    /// The channel.
    pub(crate) closed spec fn channel(&self) -> UnboundedSender<T> {
        self.tx
    }

    /// The channel.
    pub(crate) fn sender(&self) -> (r: &UnboundedSender<T>)
        ensures
            *r == self.channel(),
    {
        &self.tx
    }
}

/// A handle of a channel, with the messages that were put into the channel through it.
#[verifier::reject_recursive_types(T)]
pub(crate) struct Outbox<T> {
    line: Line<T>,
    sent: Ghost<Seq<T>>,
}

impl<T> Outbox<T> {
    /// The channel.
    pub(crate) closed spec fn channel(&self) -> UnboundedSender<T> {
        self.line.channel()
    }

    /// What was put into the channel, in order.
    pub(crate) closed spec fn sent(&self) -> Seq<T> {
        self.sent@
    }

    /// A handle of the channel `tx` through which nothing was posted yet.
    pub(super) fn new(tx: UnboundedSender<T>) -> (r: Self)
        ensures
            r.channel() == tx,
            r.sent() == Seq::<T>::empty(),
    {
        Outbox { line: Line { tx }, sent: Ghost(Seq::empty()) }
    }

    /// Another handle of the channel, through which nothing was posted yet.
    pub(super) fn another(&self) -> (r: Self)
        ensures
            r.channel() == self.channel(),
            r.sent() == Seq::<T>::empty(),
    {
        Outbox::new(self.line.tx.clone())
    }

    /// Posts a message, and records it.
    pub(super) fn put(&mut self, message: T)
        ensures
            final(self).channel() == old(self).channel(),
            final(self).sent() == old(self).sent().push(message),
            posted(old(self).channel(), message),
        opens_invariants none
        no_unwind
    {
        let ghost record = self.sent@.push(message);
        let r = post(&self.line, message);
        proof {
            lemma_posted(self.line, message, r);
        }
        self.sent = Ghost(record);
    }

    /// Posts a message that stays out of the record.
    pub(super) fn call_out(&self, message: T)
        ensures
            posted(self.channel(), message),
    {
        let r = post(&self.line, message);
        proof {
            lemma_posted(self.line, message, r);
        }
    }
}

} // verus!
