use vstd::prelude::*;

use crate::protocol::{
    acquire_step_spec, cas_result, release_outcome_spec, AcquireStep, ReleaseOutcome,
    WaitStrategy, LOCKED, UNLOCKED,
};

verus! {

// An abstract account of threads that share a counter over a lock word. The
// lock steps follow `acquire_step_spec` and `release_outcome_spec` applied to
// `cas_result`, the decisions that `Putex` takes; the laws below are proved of
// this account only, not of the atomic word inside a `Putex`, and the account
// lets every thread see every write at once, so it says nothing about memory
// ordering.

/// One step of one thread (named by a number) that updates a shared counter
/// in read-modify-write fashion.
pub enum Event {
    /// One compare-and-swap attempt on the lock word.
    Acquire(nat),
    /// Read the counter into the thread's own register.
    Load(nat),
    /// Write the thread's register plus the given amount back to the counter.
    Store(nat, int),
    /// One compare-and-swap releasing the lock word.
    Release(nat),
}

/// In the model: the lock word, the threads that hold the lock, the threads between a load
/// and its store, the shared counter, and each thread's register.
pub struct ModelState {
    pub word: usize,
    pub inside: Set<nat>,
    pub loaded: Set<nat>,
    pub counter: int,
    pub locals: Map<nat, int>,
}

/// An unlocked lock, no thread inside, the counter at `counter`.
pub open spec fn start(counter: int) -> ModelState {
    ModelState {
        word: UNLOCKED,
        inside: Set::empty(),
        loaded: Set::empty(),
        counter,
        locals: Map::empty(),
    }
}

/// Whether a thread that follows the lock discipline may take this step now:
/// it touches the counter only while it holds the lock, stores only after a
/// load, and releases only what it holds.
pub open spec fn enabled(s: ModelState, e: Event) -> bool {
    match e {
        Event::Acquire(t) => !s.inside.contains(t),
        Event::Load(t) => s.inside.contains(t) && !s.loaded.contains(t),
        Event::Store(t, _) => s.loaded.contains(t),
        Event::Release(t) => s.inside.contains(t) && !s.loaded.contains(t),
    }
}

/// Whether a thread that uses no lock may take this step now: only loads and
/// stores, each store after a load.
pub open spec fn enabled_unsynchronized(s: ModelState, e: Event) -> bool {
    match e {
        Event::Load(t) => !s.loaded.contains(t),
        Event::Store(t, _) => s.loaded.contains(t),
        _ => false,
    }
}

/// The effect of one step. Lock steps follow the decisions that `Putex` takes
/// on the result of its compare-and-swap; a failed attempt changes nothing.
pub open spec fn step(s: ModelState, e: Event, strategy: WaitStrategy) -> ModelState {
    match e {
        Event::Acquire(t) => if acquire_step_spec(cas_result(s.word, UNLOCKED), strategy)
            == AcquireStep::Acquired {
            ModelState { word: LOCKED, inside: s.inside.insert(t), ..s }
        } else {
            s
        },
        Event::Load(t) => ModelState {
            loaded: s.loaded.insert(t),
            locals: s.locals.insert(t, s.counter),
            ..s
        },
        Event::Store(t, d) => ModelState {
            loaded: s.loaded.remove(t),
            counter: s.locals[t] + d,
            ..s
        },
        Event::Release(t) => if release_outcome_spec(cas_result(s.word, LOCKED))
            == ReleaseOutcome::Released {
            ModelState { word: UNLOCKED, inside: s.inside.remove(t), ..s }
        } else {
            s
        },
    }
}

/// The state after the steps of `trace`, in order.
pub open spec fn run(s: ModelState, trace: Seq<Event>, strategy: WaitStrategy) -> ModelState
    decreases trace.len(),
{
    if trace.len() == 0 {
        s
    } else {
        step(run(s, trace.drop_last(), strategy), trace.last(), strategy)
    }
}

/// Every step of `trace` is allowed by the lock discipline when it is taken.
pub open spec fn disciplined(s: ModelState, trace: Seq<Event>, strategy: WaitStrategy) -> bool
    decreases trace.len(),
{
    trace.len() == 0 || (disciplined(s, trace.drop_last(), strategy) && enabled(
        run(s, trace.drop_last(), strategy),
        trace.last(),
    ))
}

/// Every step of `trace` is a load or a store taken in order, with no lock.
pub open spec fn unsynchronized(s: ModelState, trace: Seq<Event>, strategy: WaitStrategy) -> bool
    decreases trace.len(),
{
    trace.len() == 0 || (unsynchronized(s, trace.drop_last(), strategy) && enabled_unsynchronized(
        run(s, trace.drop_last(), strategy),
        trace.last(),
    ))
}

/// The sum of the amounts of all stores in `trace`.
pub open spec fn stored(trace: Seq<Event>) -> int
    decreases trace.len(),
{
    if trace.len() == 0 {
        0
    } else {
        stored(trace.drop_last()) + match trace.last() {
            Event::Store(_, d) => d,
            _ => 0,
        }
    }
}

/// The lock word is `LOCKED` exactly while some thread holds the lock, and
/// no two threads hold it at once.
pub open spec fn exclusive(s: ModelState) -> bool {
    &&& s.word == UNLOCKED || s.word == LOCKED
    &&& s.word == UNLOCKED ==> (forall|t: nat| !s.inside.contains(t))
    &&& s.word == LOCKED ==> (exists|t: nat| s.inside.contains(t))
    &&& forall|a: nat, b: nat| s.inside.contains(a) && s.inside.contains(b) ==> a == b
}

/// `exclusive`, and a thread between its load and its store holds the lock
/// and has in its register the value of the counter.
pub open spec fn consistent(s: ModelState) -> bool {
    &&& exclusive(s)
    &&& forall|t: nat| s.loaded.contains(t) ==> s.inside.contains(t)
    &&& forall|t: nat|
        s.loaded.contains(t) ==> s.locals.contains_key(t) && s.locals[t] == s.counter
}

proof fn lemma_consistent_run(c: int, trace: Seq<Event>, strategy: WaitStrategy)
    requires
        disciplined(start(c), trace, strategy),
    ensures
        consistent(run(start(c), trace, strategy)),
        run(start(c), trace, strategy).counter == c + stored(trace),
    decreases trace.len(),
{
    if trace.len() > 0 {
        lemma_consistent_run(c, trace.drop_last(), strategy);
        let s = run(start(c), trace.drop_last(), strategy);
        let n = step(s, trace.last(), strategy);
        match trace.last() {
            Event::Acquire(t) => {
                if s.word == UNLOCKED {
                    assert(n.inside.contains(t));
                }
            },
            Event::Store(t, d) => {
                assert forall|u: nat| !n.loaded.contains(u) by {
                    if s.loaded.contains(u) {
                        assert(s.inside.contains(u) && s.inside.contains(t));
                    }
                }
                assert(n.inside == s.inside && n.word == s.word);
            },
            Event::Load(t) => {
                assert(n.inside == s.inside && n.word == s.word);
            },
            Event::Release(t) => {
                if s.word == LOCKED {
                    assert forall|u: nat| !n.inside.contains(u) by {
                        if s.inside.contains(u) {
                            assert(u == t);
                        }
                    }
                }
            },
        }
    }
}

/// Mutual exclusion: in every run in which each thread follows the lock
/// discipline, at most one thread holds the lock at any time, and the lock
/// word is `LOCKED` exactly while one does.
pub proof fn lemma_mutual_exclusion(c: int, trace: Seq<Event>, strategy: WaitStrategy)
    requires
        disciplined(start(c), trace, strategy),
    ensures
        forall|a: nat, b: nat|
            run(start(c), trace, strategy).inside.contains(a) && run(
                start(c),
                trace,
                strategy,
            ).inside.contains(b) ==> a == b,
        (run(start(c), trace, strategy).word == LOCKED) <==> (exists|t: nat|
            run(start(c), trace, strategy).inside.contains(t)),
{
    lemma_consistent_run(c, trace, strategy);
}

/// No update is lost: in every run under the lock discipline, the counter has
/// moved from its start by exactly the sum of all amounts stored. So when the
/// increments and decrements balance, it ends where it began.
pub proof fn lemma_no_lost_update(c: int, trace: Seq<Event>, strategy: WaitStrategy)
    requires
        disciplined(start(c), trace, strategy),
    ensures
        run(start(c), trace, strategy).counter == c + stored(trace),
        stored(trace) == 0 ==> run(start(c), trace, strategy).counter == c,
{
    lemma_consistent_run(c, trace, strategy);
}

/// Visibility: a thread that loads the counter inside its critical section
/// sees every store made before, in earlier critical sections of any thread.
pub proof fn lemma_holder_sees_earlier_stores(
    c: int,
    trace: Seq<Event>,
    t: nat,
    strategy: WaitStrategy,
)
    requires
        disciplined(start(c), trace.push(Event::Load(t)), strategy),
    ensures
        run(start(c), trace.push(Event::Load(t)), strategy).locals[t] == c + stored(trace),
{
    assert(trace.push(Event::Load(t)).drop_last() =~= trace);
    lemma_consistent_run(c, trace, strategy);
}

/// Without a lock the same workload can lose an update: two threads load the
/// counter before either stores, and the second store overwrites the first,
/// so a balanced pair of updates leaves the counter moved.
pub proof fn lemma_unsynchronized_update_can_be_lost(c: int, strategy: WaitStrategy)
    ensures
        exists|trace: Seq<Event>|
            unsynchronized(start(c), trace, strategy) && stored(trace) == 0 && run(
                start(c),
                trace,
                strategy,
            ).counter != c,
{
    let t1 = seq![Event::Load(0)];
    let t2 = t1.push(Event::Load(1));
    let t3 = t2.push(Event::Store(0, 1));
    let t4 = t3.push(Event::Store(1, -1));
    assert(t1.drop_last() =~= Seq::<Event>::empty());
    assert(t2.drop_last() =~= t1);
    assert(t3.drop_last() =~= t2);
    assert(t4.drop_last() =~= t3);
    let s0 = start(c);
    assert(run(s0, Seq::<Event>::empty(), strategy) == s0);
    assert(unsynchronized(s0, Seq::<Event>::empty(), strategy));
    assert(t1.last() == Event::Load(0));
    let s1 = run(s0, t1, strategy);
    let s2 = run(s0, t2, strategy);
    let s3 = run(s0, t3, strategy);
    let s4 = run(s0, t4, strategy);
    assert(s1.locals[0] == c && s1.loaded.contains(0) && !s1.loaded.contains(1));
    assert(s2.locals[0] == c && s2.locals[1] == c && s2.loaded.contains(1));
    assert(s3.counter == c + 1 && s3.locals[1] == c && s3.loaded.contains(1));
    assert(s4.counter == c - 1);
    assert(unsynchronized(s0, t1, strategy));
    assert(unsynchronized(s0, t2, strategy));
    assert(unsynchronized(s0, t3, strategy));
    assert(unsynchronized(s0, t4, strategy));
    assert(stored(Seq::<Event>::empty()) == 0);
    assert(stored(t1) == 0);
    assert(stored(t2) == 0);
    assert(stored(t3) == 1);
    assert(stored(t4) == 0);
}

/// `n` critical sections of thread `t` in a row, each an acquire and its
/// release.
pub open spec fn cycles(t: nat, n: nat) -> Seq<Event>
    decreases n,
{
    if n == 0 {
        Seq::empty()
    } else {
        cycles(t, (n - 1) as nat).push(Event::Acquire(t)).push(Event::Release(t))
    }
}

/// Reuse: a thread can take and give back the lock any number of times in a
/// row. Every attempt succeeds and each release leaves the lock as it was
/// made, unlocked.
pub proof fn lemma_reusable(c: int, t: nat, n: nat, strategy: WaitStrategy)
    ensures
        disciplined(start(c), cycles(t, n), strategy),
        run(start(c), cycles(t, n), strategy) == start(c),
        forall|k: nat|
            k < n ==> run(start(c), #[trigger] cycles(t, k).push(Event::Acquire(t)), strategy).inside.contains(t),
    decreases n,
{
    if n > 0 {
        let m = (n - 1) as nat;
        lemma_reusable(c, t, m, strategy);
        let a = cycles(t, m).push(Event::Acquire(t));
        let r = a.push(Event::Release(t));
        assert(a.drop_last() =~= cycles(t, m));
        assert(r.drop_last() =~= a);
        let s = run(start(c), a, strategy);
        assert(s.inside.contains(t));
        assert(disciplined(start(c), a, strategy));
        assert(disciplined(start(c), r, strategy));
        assert(cycles(t, n) == r);
        assert(run(start(c), r, strategy).inside =~= Set::<nat>::empty());
        assert(run(start(c), r, strategy) == start(c));
    }
}

/// Releasing twice: after an acquire and its release, a further release finds
/// the word `UNLOCKED`, is judged a violation that reports it, and changes
/// nothing.
pub proof fn lemma_double_release(c: int, t: nat, strategy: WaitStrategy)
    ensures
        release_outcome_spec(cas_result(run(start(c), cycles(t, 1), strategy).word, LOCKED))
            == ReleaseOutcome::Violation(UNLOCKED),
        step(run(start(c), cycles(t, 1), strategy), Event::Release(t), strategy) == run(
            start(c),
            cycles(t, 1),
            strategy,
        ),
{
    lemma_reusable(c, t, 1, strategy);
}

/// Strategy equivalence: the wait strategy changes the effect of no step, so
/// a run allowed under one strategy is allowed under the other and ends in
/// the same state.
pub proof fn lemma_strategy_equivalence(s: ModelState, trace: Seq<Event>)
    ensures
        run(s, trace, WaitStrategy::Spin) == run(s, trace, WaitStrategy::Yield),
        disciplined(s, trace, WaitStrategy::Spin) == disciplined(s, trace, WaitStrategy::Yield),
    decreases trace.len(),
{
    if trace.len() > 0 {
        lemma_strategy_equivalence(s, trace.drop_last());
    }
}

} // verus!
