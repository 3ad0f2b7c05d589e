//! The permits of a semaphore that one owner takes and gives back, and others count.
//!
//! The semaphore is reached only through the two handles of this module: one
//! [`PermitPool`], which alone changes it, and any number of [`PermitWatch`]es.
use std::sync::Arc;

use tokio::sync::Semaphore;
use vstd::prelude::*;

verus! {

/// The semaphore of tokio, which Verus treats as opaque.
#[verifier::external_type_specification]
#[verifier::external_body]
pub struct ExSemaphore(Semaphore);

/// Permits that are left in a semaphore.
pub uninterp spec fn permits_in(sem: Semaphore) -> nat;

/// Which semaphore this is: all handles of one semaphore lead to the same one.
pub uninterp spec fn identity_of(sem: Semaphore) -> int;

/// The most permits that a semaphore can hold (`tokio::sync::Semaphore::MAX_PERMITS`, the
/// largest `usize` shifted right by three bits).
pub open spec fn max_permits() -> nat {
    (usize::MAX / 8) as nat
}

/// The handle that takes permits and gives them back. There is one for each semaphore, so
/// what is left in the semaphore changes through a `&mut PermitPool` alone.
pub(crate) struct PermitPool {
    sem: Arc<Semaphore>,
}

/// A permit that was taken from a pool. Only taking one gives a slot.
pub(crate) struct Slot {
    _taken: (),
}

/// A handle that counts the permits.
pub(crate) struct PermitWatch {
    sem: Arc<Semaphore>,
}

/// `tokio::sync::Semaphore::new` makes a semaphore with `permits` permits. It panics
/// above [`max_permits`].
#[verifier::external_body]
fn new_semaphore(permits: usize) -> (r: Semaphore)
    requires
        permits <= max_permits(),
    ensures
        permits_in(r) == permits,
{
    Semaphore::new(permits)
}

/// `tokio::sync::Semaphore::available_permits` counts the permits that are left, never more
/// than [`max_permits`]. While the owner of the semaphore's pool stands by, they are those
/// of the pool. Otherwise the owner may take and give back permits meanwhile, so the count
/// itself is left unsaid.
#[verifier::external_body]
fn available(sem: &Semaphore, owner: Option<&PermitPool>) -> (r: usize)
    ensures
        r <= max_permits(),
        owner matches Some(pool) ==> (identity_of(*pool.sem) == identity_of(*sem) ==> r
            == permits_in(*pool.sem)),
{
    sem.available_permits()
}

/// `tokio::sync::Semaphore::try_acquire` takes a permit if one is left, and fails with
/// nothing changed otherwise; the pool is never closed. `SemaphorePermit::forget` keeps
/// the permit from returning by itself.
#[verifier::external_body]
fn try_acquire(pool: &mut PermitPool) -> (taken: bool)
    ensures
        taken == (permits_in(*old(pool).sem) > 0),
        permits_in(*final(pool).sem) == permits_in(*old(pool).sem) - if taken {
            1int
        } else {
            0
        },
        identity_of(*final(pool).sem) == identity_of(*old(pool).sem),
{
    match pool.sem.try_acquire() {
        Ok(permit) => {
            permit.forget();
            true
        },
        Err(_) => false,
    }
}

/// `tokio::sync::Semaphore::add_permits` adds `n` permits; nobody waits for them. It
/// panics where the semaphore would hold more than [`max_permits`].
#[verifier::external_body]
fn add_permits(pool: &mut PermitPool, n: usize)
    requires
        permits_in(*old(pool).sem) + n <= max_permits(),
    ensures
        permits_in(*final(pool).sem) == permits_in(*old(pool).sem) + n,
        identity_of(*final(pool).sem) == identity_of(*old(pool).sem),
{
    pool.sem.add_permits(n);
}

impl PermitPool {
    /// Permits that are left.
    pub(crate) closed spec fn left(&self) -> nat {
        permits_in(*self.sem)
    }

    /// Which semaphore holds the permits.
    pub(crate) closed spec fn semaphore(&self) -> int {
        identity_of(*self.sem)
    }

    /// A pool of `permits` permits.
    pub(crate) fn new(permits: usize) -> (r: Self)
        requires
            permits <= max_permits(),
        ensures
            r.left() == permits,
    {
        PermitPool { sem: Arc::new(new_semaphore(permits)) }
    }

    /// Counts the permits.
    pub(crate) fn count(&self) -> (r: usize)
        ensures
            r == self.left(),
            r <= max_permits(),
    {
        available(&self.sem, Some(self))
    }

    /// Takes a permit, which must be left.
    pub(crate) fn take(&mut self) -> (slot: Slot)
        requires
            old(self).left() > 0,
        ensures
            final(self).left() == old(self).left() - 1,
            final(self).semaphore() == old(self).semaphore(),
    {
        try_acquire(self);
        Slot { _taken: () }
    }

    /// Gives a permit back.
    pub(crate) fn give_back(&mut self)
        requires
            old(self).left() < max_permits(),
        ensures
            final(self).left() == old(self).left() + 1,
            final(self).semaphore() == old(self).semaphore(),
    {
        add_permits(self, 1);
    }

    /// A handle that counts the permits.
    pub(crate) fn watch(&self) -> (r: PermitWatch)
        ensures
            r.semaphore() == self.semaphore(),
    {
        PermitWatch { sem: self.sem.clone() }
    }
}

impl PermitWatch {
    /// Which semaphore is watched.
    pub(crate) closed spec fn semaphore(&self) -> int {
        identity_of(*self.sem)
    }

    /// Whether a count of the permits gave `n`.
    pub(crate) closed spec fn counted(&self, n: usize) -> bool {
        available.ensures((&*self.sem, None), n)
    }

    /// Counts the permits. How many are left is up to the pool's owner, who may be running
    /// in another task.
    pub(crate) fn count(&self) -> (r: usize)
        ensures
            r <= max_permits(),
            self.counted(r),
    {
        available(&self.sem, None)
    }

    /// Counts the permits, while the pool stands by.
    pub(crate) fn count_beside(&self, pool: &PermitPool) -> (r: usize)
        requires
            self.semaphore() == pool.semaphore(),
        ensures
            r == pool.left(),
    {
        available(&self.sem, Some(pool))
    }
}

} // verus!
