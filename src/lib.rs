//! An exclusive lock over one owned value, taken by compare-and-swap on a
//! lock word, with a choice of waiting by spinning or by yielding.
//!
//! `protocol` holds the decisions taken on the result of each
//! compare-and-swap, `putex` the lock word and the guard that gives it back,
//! and `model` an abstract account of threads that run over a lock word, with
//! laws proved of every interleaving of that account. The account takes its
//! lock steps from the same decisions as `Putex`, but no contract ties the
//! real lock word of a `Putex` to it: what the atomic word holds cannot be
//! stated here, so the laws speak of the model alone.
pub mod model;
pub mod protocol;
pub mod putex;

pub use protocol::{
    acquire_step, release_outcome, AcquireStep, ReleaseOutcome, WaitStrategy, LOCKED, UNLOCKED,
};
pub use putex::{Putex, PutexGuard};
