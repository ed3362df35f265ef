use vstd::prelude::*;

verus! {

/// Value of the lock word while no handle is outstanding.
pub const UNLOCKED: usize = 0;

/// Value of the lock word while a handle is outstanding.
pub const LOCKED: usize = 1;

/// How a thread waits between two failed attempts to take the lock.
#[derive(Clone, Copy, Debug, PartialEq, Eq, Structural)]
pub enum WaitStrategy {
    /// Issue a CPU spin hint and retry at once.
    Spin,
    /// Hand the processor back to the scheduler before retrying.
    Yield,
}

/// `Spin` when the construction flag is set, `Yield` otherwise.
pub open spec fn strategy_of(spin: bool) -> WaitStrategy {
    if spin {
        WaitStrategy::Spin
    } else {
        WaitStrategy::Yield
    }
}

impl WaitStrategy {
    /// The strategy selected by the construction flag.
    pub fn from_spin_flag(spin: bool) -> (r: WaitStrategy)
        ensures
            r == strategy_of(spin),
    {
        if spin {
            WaitStrategy::Spin
        } else {
            WaitStrategy::Yield
        }
    }
}

/// What a thread does after one compare-and-swap of the lock word from
/// `UNLOCKED` to `LOCKED`.
#[derive(Clone, Copy, Debug, PartialEq, Eq, Structural)]
pub enum AcquireStep {
    /// The word went from `UNLOCKED` to `LOCKED`: the caller holds the lock.
    Acquired,
    /// Another holder is in; wait in this way, then try again.
    Wait(WaitStrategy),
}

/// What one compare-and-swap of the lock word from `LOCKED` to `UNLOCKED`
/// found.
#[derive(Clone, Copy, Debug, PartialEq, Eq, Structural)]
pub enum ReleaseOutcome {
    /// The word was `LOCKED` and is now `UNLOCKED`.
    Released,
    /// The word was not `LOCKED`: a release without a matching acquire. The
    /// value is the word that was observed.
    Violation(usize),
}

/// What a strong compare-and-swap returns on a word holding `word`.
pub open spec fn cas_result(word: usize, current: usize) -> Result<usize, usize> {
    if word == current {
        Ok(word)
    } else {
        Err(word)
    }
}

/// A successful compare-and-swap means the lock is held; a failed one means
/// waiting with the given strategy.
pub open spec fn acquire_step_spec(observed: Result<usize, usize>, strategy: WaitStrategy) -> AcquireStep {
    match observed {
        Ok(_) => AcquireStep::Acquired,
        Err(_) => AcquireStep::Wait(strategy),
    }
}

/// A successful compare-and-swap means the lock was given back; a failed one
/// is a violation that reports the word found.
pub open spec fn release_outcome_spec(observed: Result<usize, usize>) -> ReleaseOutcome {
    match observed {
        Ok(_) => ReleaseOutcome::Released,
        Err(v) => ReleaseOutcome::Violation(v),
    }
}

/// Decides, from the result of a compare-and-swap from `UNLOCKED` to
/// `LOCKED`, whether the lock was taken or how to wait before the next try.
pub fn acquire_step(observed: Result<usize, usize>, strategy: WaitStrategy) -> (r: AcquireStep)
    ensures
        r == acquire_step_spec(observed, strategy),
{
    match observed {
        Ok(_) => AcquireStep::Acquired,
        Err(_) => AcquireStep::Wait(strategy),
    }
}

/// Judges the result of a compare-and-swap from `LOCKED` to `UNLOCKED`.
pub fn release_outcome(observed: Result<usize, usize>) -> (r: ReleaseOutcome)
    ensures
        r == release_outcome_spec(observed),
{
    match observed {
        Ok(_) => ReleaseOutcome::Released,
        Err(v) => ReleaseOutcome::Violation(v),
    }
}

} // verus!
