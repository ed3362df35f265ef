use putex::{AcquireStep, Putex, ReleaseOutcome, WaitStrategy, LOCKED, UNLOCKED};
use putex::{acquire_step, release_outcome};

#[test]
fn spin_flag_selects_strategy() {
    assert_eq!(Putex::new(0, true).wait_strategy(), WaitStrategy::Spin);
    assert_eq!(Putex::new(0, false).wait_strategy(), WaitStrategy::Yield);
    assert_eq!(WaitStrategy::from_spin_flag(true), WaitStrategy::Spin);
    assert_eq!(WaitStrategy::from_spin_flag(false), WaitStrategy::Yield);
}

#[test]
fn word_values() {
    assert_eq!(UNLOCKED, 0);
    assert_eq!(LOCKED, 1);
}

#[test]
fn fresh_lock_is_acquired_at_first_attempt() {
    let p = Putex::new(String::from("x"), true);
    let g = p.acquire_attempt();
    assert!(g.is_ok());
    assert_eq!(g.ok().unwrap().release(), ReleaseOutcome::Released);
}

#[test]
fn held_lock_tells_to_wait_with_its_strategy() {
    for spin in [true, false] {
        let p = Putex::new(7u8, spin);
        let g = p.acquire_attempt().ok().unwrap();
        let expected = if spin { WaitStrategy::Spin } else { WaitStrategy::Yield };
        assert_eq!(p.acquire_attempt().err(), Some((expected, LOCKED)));
        assert_eq!(p.acquire_attempt().err(), Some((expected, LOCKED)));
        assert_eq!(g.release(), ReleaseOutcome::Released);
        assert!(p.acquire_attempt().is_ok());
    }
}

#[test]
fn guard_names_its_lock() {
    let p = Putex::new(1u32, false);
    let g = p.acquire_attempt().ok().unwrap();
    assert!(std::ptr::eq(g.putex(), &p));
}

#[test]
fn lock_is_reusable_many_times() {
    let p = Putex::new(0i32, true);
    for _ in 0..10000 {
        let g = p.acquire_attempt().ok().unwrap();
        assert!(p.acquire_attempt().is_err());
        assert_eq!(g.release(), ReleaseOutcome::Released);
    }
    assert!(p.acquire_attempt().is_ok());
}

#[test]
fn release_twice_is_a_violation() {
    let p = Putex::new((), true);
    let g = p.acquire_attempt().ok().unwrap();
    assert_eq!(g.release(), ReleaseOutcome::Released);
    assert_eq!(p.unlock(), ReleaseOutcome::Violation(UNLOCKED));
    assert_eq!(p.unlock(), ReleaseOutcome::Violation(0));
}

#[test]
fn release_of_fresh_lock_is_a_violation() {
    let p = Putex::new(3i64, false);
    assert_eq!(p.unlock(), ReleaseOutcome::Violation(0));
    assert!(p.acquire_attempt().is_ok());
}

#[test]
fn direct_unlock_releases_held_lock() {
    let p = Putex::new(3i64, false);
    assert!(p.acquire_attempt().is_ok());
    assert!(p.acquire_attempt().is_err());
    assert_eq!(p.unlock(), ReleaseOutcome::Released);
    assert!(p.acquire_attempt().is_ok());
}

#[test]
fn acquire_step_decisions() {
    assert_eq!(acquire_step(Ok(0), WaitStrategy::Spin), AcquireStep::Acquired);
    assert_eq!(acquire_step(Ok(0), WaitStrategy::Yield), AcquireStep::Acquired);
    assert_eq!(acquire_step(Err(1), WaitStrategy::Spin), AcquireStep::Wait(WaitStrategy::Spin));
    assert_eq!(acquire_step(Err(1), WaitStrategy::Yield), AcquireStep::Wait(WaitStrategy::Yield));
}

#[test]
fn release_outcome_decisions() {
    assert_eq!(release_outcome(Ok(1)), ReleaseOutcome::Released);
    assert_eq!(release_outcome(Err(0)), ReleaseOutcome::Violation(0));
    assert_eq!(release_outcome(Err(5)), ReleaseOutcome::Violation(5));
}

/// Two workers take turns on one lock, one adding and one subtracting, each
/// 10,000 times; every access to the counter happens while holding the lock.
fn balanced_counter(spin: bool) -> i64 {
    let p = Putex::new((), spin);
    let mut counter: i64 = 0;
    let mut up: u32 = 0;
    let mut down: u32 = 0;
    let mut turn: u32 = 0;
    while up < 10000 || down < 10000 {
        turn += 1;
        let adding = (turn % 3 != 0 && up < 10000) || down >= 10000;
        let g = p.acquire_attempt().ok().unwrap();
        let seen = counter;
        // the other worker tries meanwhile and is told to wait
        assert!(p.acquire_attempt().is_err());
        if adding {
            counter = seen + 1;
            up += 1;
        } else {
            counter = seen - 1;
            down += 1;
        }
        assert_eq!(g.release(), ReleaseOutcome::Released);
    }
    counter
}

#[test]
fn balanced_counter_with_spin() {
    assert_eq!(balanced_counter(true), 0);
}

#[test]
fn balanced_counter_with_yield() {
    assert_eq!(balanced_counter(false), 0);
}
