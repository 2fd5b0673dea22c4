//! A one-shot claim lock and a memoizing thunk built on it.
//!
//! [`lock::Lock`] holds a value and a three-valued marker. Among any number
//! of callers at most one wins the claim; the others wait until the winner
//! lets go. [`thunk::Thunk`] stores a deferred computation in such a lock and
//! runs it at most once.
//!
//! [`state`] defines the marker and what each atomic step does to it.
//! [`protocol`], [`vault`] and [`memo`] follow the marker, the lock and the
//! thunk through every sequence of such steps and prove what holds of all of
//! them: one winner, no read before the release, one run of the computation,
//! one result for everybody.
mod blocker;
pub mod lock;
pub mod memo;
pub mod protocol;
pub mod state;
pub mod thunk;
pub mod vault;
