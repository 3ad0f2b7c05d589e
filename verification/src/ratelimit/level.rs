//! The arrival time of a bucket as its limiter publishes it, in an atomic that others read.
//!
//! The atomic is reached only through the two handles of this module: one
//! [`Publisher`], which alone writes it, and any number of [`Subscriber`]s.
use std::sync::Arc;
use std::sync::atomic::{AtomicI64, Ordering};

use vstd::prelude::*;

verus! {

/// What an atomic holds.
pub uninterp spec fn held_in(cell: AtomicI64) -> i64;

/// Which atomic this is: all handles of one atomic lead to the same one.
pub uninterp spec fn cell_of(cell: AtomicI64) -> int;

/// Whether a load of the atomic gave `level`.
pub open spec fn loaded(cell: AtomicI64, level: i64) -> bool {
    AtomicI64::load.ensures((&cell, Ordering::Relaxed), level)
}

/// The handle that writes the atomic. There is one for each atomic, so what the atomic
/// holds changes through a `&mut Publisher` alone.
pub(crate) struct Publisher {
    cell: Arc<AtomicI64>,
}

/// A handle that reads the atomic.
pub(crate) struct Subscriber {
    cell: Arc<AtomicI64>,
}

/// `std::sync::atomic::AtomicI64::new` makes an atomic that holds `level`.
#[verifier::external_body]
fn new_cell(level: i64) -> (r: AtomicI64)
    ensures
        held_in(r) == level,
{
    AtomicI64::new(level)
}

/// `std::sync::atomic::AtomicI64::load` gives what the atomic holds. While the atomic's
/// publisher stands by, that is what was published last. Otherwise it may publish
/// meanwhile, so the value is left unsaid.
#[verifier::external_body]
fn load(cell: &AtomicI64, owner: Option<&Publisher>) -> (r: i64)
    ensures
        owner matches Some(publisher) ==> (cell_of(*publisher.cell) == cell_of(*cell) ==> r
            == held_in(*publisher.cell)),
{
    cell.load(Ordering::Relaxed)
}

/// `std::sync::atomic::AtomicI64::store` makes the atomic hold `level`.
#[verifier::external_body]
fn store(publisher: &mut Publisher, level: i64)
    ensures
        held_in(*final(publisher).cell) == level,
        cell_of(*final(publisher).cell) == cell_of(*old(publisher).cell),
{
    publisher.cell.store(level, Ordering::Relaxed)
}

impl Publisher {
    /// What was published last.
    pub(crate) closed spec fn published(&self) -> i64 {
        held_in(*self.cell)
    }

    /// Which atomic is written.
    pub(crate) closed spec fn cell(&self) -> int {
        cell_of(*self.cell)
    }

    /// A publisher that has published `level`.
    pub(crate) fn new(level: i64) -> (r: Self)
        ensures
            r.published() == level,
    {
        Publisher { cell: Arc::new(new_cell(level)) }
    }

    /// Publishes `level`.
    pub(crate) fn publish(&mut self, level: i64)
        ensures
            final(self).published() == level,
            final(self).cell() == old(self).cell(),
    {
        store(self, level);
    }

    /// A handle that reads what is published.
    pub(crate) fn subscribe(&self) -> (r: Subscriber)
        ensures
            r.cell() == self.cell(),
    {
        Subscriber { cell: self.cell.clone() }
    }
}

impl Subscriber {
    /// Which atomic is read.
    pub(crate) closed spec fn cell(&self) -> int {
        cell_of(*self.cell)
    }

    /// The atomic that is read.
    pub(crate) closed spec fn atomic(&self) -> AtomicI64 {
        *self.cell
    }

    /// What is published at the moment. That is up to the publisher's owner, who may be
    /// running in another task.
    pub(crate) fn read(&self) -> (r: i64)
        ensures
            loaded(self.atomic(), r),
    {
        self.cell.load(Ordering::Relaxed)
    }

    /// What is published, while the publisher stands by.
    pub(crate) fn read_beside(&self, publisher: &Publisher) -> (r: i64)
        requires
            self.cell() == publisher.cell(),
        ensures
            r == publisher.published(),
    {
        load(&self.cell, Some(publisher))
    }
}

} // verus!
