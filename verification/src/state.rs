//! The marker of a one-shot lock: its three values, the events that move it,
//! and what each event does to it.
use std::ops::Deref;
use vstd::prelude::*;

verus! {

/// One value of the marker.
#[derive(Clone, Copy, PartialEq, Eq, Structural, Debug)]
pub struct State(pub u8);

/// The code of the marker while nobody has touched the lock.
pub const INIT: u8 = 0;

/// The code of the marker while one caller holds the claim and may be
/// writing the value.
pub const WAIT: u8 = 1;

/// The code of the marker once the value is final and anyone may read it.
pub const FREE: u8 = 2;

impl Deref for State {
    type Target = u8;

    #[inline(always)]
    fn deref(&self) -> (code: &u8)
        ensures
            *code == self.0,
    {
        &self.0
    }
}

/// What a caller can do to the marker in one atomic step.
#[derive(Clone, Copy, PartialEq, Eq, Structural, Debug)]
pub enum Event {
    /// An attempt to take the claim: `INIT` becomes `WAIT`.
    Claim,
    /// A reader that finds the lock untouched: `INIT` becomes `FREE`.
    Settle,
    /// The holder of the claim lets go: the marker becomes `FREE`.
    Release,
}

impl State {
    /// The marker is one of the three values of the protocol.
    pub open spec fn valid(self) -> bool {
        self.0 == INIT || self.0 == WAIT || self.0 == FREE
    }

    /// How far the marker has come: `INIT`, then `WAIT`, then `FREE`.
    pub open spec fn rank(self) -> nat {
        self.0 as nat
    }

    /// Whether `event` can happen while the marker is `self`. Only the holder
    /// of the claim can release, and there is a holder exactly while the
    /// marker is `WAIT`.
    pub open spec fn enables(self, event: Event) -> bool {
        event is Release ==> self.0 == WAIT
    }

    /// The marker after `event` happened to `self`.
    pub open spec fn step(self, event: Event) -> State {
        match event {
            Event::Claim => if self.0 == INIT { State(WAIT) } else { self },
            Event::Settle => if self.0 == INIT { State(FREE) } else { self },
            Event::Release => State(FREE),
        }
    }

    /// Whether `event`, happening to `self`, hands its caller the claim.
    pub open spec fn grants(self, event: Event) -> bool {
        event is Claim && self.0 == INIT
    }

    /// Whether a claim attempt that found the marker at `self` has won.
    pub fn admits_claim(&self) -> (won: bool)
        ensures
            won == self.grants(Event::Claim),
    {
        self.0 == INIT
    }

    /// Whether somebody holds the claim.
    pub fn is_claimed(&self) -> (held: bool)
        ensures
            held == (self.0 == WAIT),
    {
        self.0 == WAIT
    }

    /// The marker after `event`, computed the way the atomic operation
    /// behind that event changes it.
    pub fn after(&self, event: Event) -> (next: State)
        ensures
            next == self.step(event),
    {
        match event {
            Event::Claim => if self.0 == INIT { State(WAIT) } else { *self },
            Event::Settle => if self.0 == INIT { State(FREE) } else { *self },
            Event::Release => State(FREE),
        }
    }
}

} // verus!
