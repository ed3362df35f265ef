use vstd::prelude::*;

use core::cell::UnsafeCell;
use core::sync::atomic::{AtomicUsize, Ordering};

use crate::protocol::{
    acquire_step, release_outcome, strategy_of, AcquireStep, ReleaseOutcome, WaitStrategy,
    LOCKED, UNLOCKED,
};

verus! {

/// Declares `core::cell::UnsafeCell`, the cell that holds the protected value;
/// nothing of its contents is relied on.
#[verifier::external_type_specification]
#[verifier::external_body]
#[verifier::reject_recursive_types(T)]
pub struct ExUnsafeCell<T: ?Sized>(UnsafeCell<T>);

/// Relies on `UnsafeCell::new` only to build the cell; it promises nothing.
pub assume_specification<T>[ UnsafeCell::<T>::new ](value: T) -> UnsafeCell<T>;

/// Relies on `AtomicUsize::compare_exchange`: it writes `new` exactly when the
/// word holds `current`, and returns `Ok` of the word it found when it wrote,
/// `Err` of the word it found when it did not.
#[verifier::external_body]
fn compare_exchange_word(
    word: &AtomicUsize,
    current: usize,
    new: usize,
    success: Ordering,
    failure: Ordering,
) -> (r: Result<usize, usize>)
    requires
        failure != Ordering::Release,
        failure != Ordering::AcqRel,
    ensures
        r matches Ok(v) ==> v == current,
        r matches Err(v) ==> v != current,
{
    word.compare_exchange(current, new, success, failure)
}

/// An exclusive lock over one value of type `T`.
///
/// The lock word is `UNLOCKED` or `LOCKED` and changes only by
/// compare-and-swap, with acquire-release ordering on both transitions. The
/// wait strategy is fixed when the lock is made.
#[verifier::reject_recursive_types(T)]
pub struct Putex<T> {
    data: UnsafeCell<T>,
    lock: AtomicUsize,
    spin: bool,
}

impl<T> Putex<T> {
    /// The wait strategy chosen at construction.
    pub closed spec fn strategy(&self) -> WaitStrategy {
        strategy_of(self.spin)
    }

    /// Makes an unlocked lock over `data` that waits by spinning when `spin`
    /// holds and by yielding otherwise.
    pub fn new(data: T, spin: bool) -> (r: Self)
        ensures
            r.strategy() == strategy_of(spin),
    {
        Putex { data: UnsafeCell::new(data), lock: AtomicUsize::new(UNLOCKED), spin }
    }

    /// The wait strategy this lock uses between failed attempts.
    pub fn wait_strategy(&self) -> (r: WaitStrategy)
        ensures
            r == self.strategy(),
    {
        WaitStrategy::from_spin_flag(self.spin)
    }

    /// One attempt to take the lock: a single compare-and-swap of the word
    /// from `UNLOCKED` to `LOCKED`. Either the caller now holds the lock and
    /// gets the guard that gives it back, or it is told to wait with this
    /// lock's strategy and try again; it also learns the word it found,
    /// which was not `UNLOCKED`.
    pub fn acquire_attempt(&self) -> (r: Result<PutexGuard<'_, T>, (WaitStrategy, usize)>)
        ensures
            r matches Ok(g) ==> g.owner() == self,
            r matches Err((w, seen)) ==> w == self.strategy() && seen != UNLOCKED,
    {
        let observed = compare_exchange_word(&self.lock, UNLOCKED, LOCKED, Ordering::AcqRel, Ordering::Acquire);
        match acquire_step(observed, self.wait_strategy()) {
            AcquireStep::Acquired => Ok(PutexGuard { putex: self }),
            AcquireStep::Wait(w) => {
                let seen = match observed {
                    Ok(v) => v,
                    Err(v) => v,
                };
                Err((w, seen))
            },
        }
    }

    /// Releases the lock: a single compare-and-swap of the word from `LOCKED`
    /// to `UNLOCKED`. A word that was not `LOCKED` is left as it was and
    /// reported as a violation.
    pub fn unlock(&self) -> (r: ReleaseOutcome)
        ensures
            r matches ReleaseOutcome::Violation(v) ==> v != LOCKED,
    {
        let observed = compare_exchange_word(&self.lock, LOCKED, UNLOCKED, Ordering::AcqRel, Ordering::Acquire);
        release_outcome(observed)
    }

    /// The cell that holds the protected value. Reading or writing through it
    /// is sound only while the lock is held.
    pub fn cell(&self) -> &UnsafeCell<T> {
        &self.data
    }
}

/// The right to release a lock that was acquired once. It cannot be copied,
/// and releasing consumes it, so each successful acquire is released at most
/// once through it.
#[verifier::reject_recursive_types(T)]
pub struct PutexGuard<'a, T> {
    putex: &'a Putex<T>,
}

impl<'a, T> PutexGuard<'a, T> {
    /// The lock this guard was taken from.
    pub closed spec fn owner(&self) -> &'a Putex<T> {
        self.putex
    }

    /// The lock this guard was taken from.
    pub fn putex(&self) -> (r: &'a Putex<T>)
        ensures
            r == self.owner(),
    {
        self.putex
    }

    /// Gives the lock back with one compare-and-swap from `LOCKED` to
    /// `UNLOCKED`.
    pub fn release(self) -> (r: ReleaseOutcome)
        ensures
            r matches ReleaseOutcome::Violation(v) ==> v != LOCKED,
    {
        self.putex.unlock()
    }
}

} // verus!
