//! The life of a lock as its callers can see it: the marker and the value
//! that the lock holds. Every race between a holder of the claim and the
//! callers that read amounts to some sequence of the acts below.
use crate::state::{Event, State, FREE, INIT, WAIT};
use vstd::prelude::*;

verus! {

/// A lock seen from outside.
pub struct Vault<T> {
    /// The marker of the lock.
    pub marker: State,
    /// The value that the lock holds.
    pub value: T,
}

/// One atomic step of a caller of the lock.
pub enum Act<T> {
    /// Any caller tries to take the claim.
    Claim,
    /// The holder of the claim stores a value.
    Write(T),
    /// The holder of the claim drops the guard.
    Release,
    /// A caller that comes to read settles the marker if it is untouched.
    Settle,
    /// A caller that came to read looks at the value. It has settled the
    /// marker and, if it found the claim held, has waited for it to go.
    Read,
}

impl<T> Vault<T> {
    /// A lock that was built around `value`.
    pub open spec fn fresh(value: T) -> Vault<T> {
        Vault { marker: State(INIT), value }
    }

    /// Whether `next` can happen to this lock.
    pub open spec fn enables(self, next: Act<T>) -> bool {
        match next {
            Act::Claim => true,
            Act::Write(_) => self.marker.0 == WAIT,
            Act::Release => self.marker.enables(Event::Release),
            Act::Settle => true,
            Act::Read => self.marker.0 == FREE,
        }
    }

    /// The lock after `next` happened to it.
    pub open spec fn step(self, next: Act<T>) -> Vault<T> {
        match next {
            Act::Claim => Vault { marker: self.marker.step(Event::Claim), ..self },
            Act::Write(value) => Vault { value, ..self },
            Act::Release => Vault { marker: self.marker.step(Event::Release), ..self },
            Act::Settle => Vault { marker: self.marker.step(Event::Settle), ..self },
            Act::Read => self,
        }
    }

    /// The lock after the acts of `trace` happened to it, in order.
    pub open spec fn run(self, trace: Seq<Act<T>>) -> Vault<T>
        decreases trace.len(),
    {
        if trace.len() == 0 {
            self
        } else {
            self.run(trace.drop_last()).step(trace.last())
        }
    }

    /// Whether every act of `trace` can happen when its turn comes.
    pub open spec fn admits(self, trace: Seq<Act<T>>) -> bool
        decreases trace.len(),
    {
        trace.len() == 0 || (self.admits(trace.drop_last()) && self.run(trace.drop_last()).enables(
            trace.last(),
        ))
    }

    /// The lock when act number `at` of `trace` is about to happen.
    pub open spec fn before(self, trace: Seq<Act<T>>, at: int) -> Vault<T> {
        self.run(trace.take(at))
    }
}

/// Each act of a run leads from the lock before it to the lock before the
/// next, and in a run that can happen it can happen at its turn.
pub proof fn lemma_act_by_act<T>(start: Vault<T>, trace: Seq<Act<T>>, at: int)
    requires
        0 <= at < trace.len(),
    ensures
        start.before(trace, at + 1) == start.before(trace, at).step(trace[at]),
        start.admits(trace) ==> start.before(trace, at).enables(trace[at]),
    decreases trace.len(),
{
    assert(trace.take(at + 1).drop_last() =~= trace.take(at));
    assert(trace.take(at + 1).last() == trace[at]);
    if at == trace.len() - 1 {
        assert(trace.take(at) =~= trace.drop_last());
    } else {
        lemma_act_by_act(start, trace.drop_last(), at);
        assert(trace.drop_last().take(at) =~= trace.take(at));
    }
}

/// Once the value is final the marker says so for good.
pub proof fn lemma_final_marker_stays<T>(start: Vault<T>, trace: Seq<Act<T>>, from: int, to: int)
    requires
        0 <= from <= to <= trace.len(),
        start.before(trace, from).marker.0 == FREE,
    ensures
        start.before(trace, to).marker.0 == FREE,
    decreases to - from,
{
    if from < to {
        lemma_final_marker_stays(start, trace, from, to - 1);
        lemma_act_by_act(start, trace, to - 1);
    }
}

/// The value changes only when the holder stores one.
pub proof fn lemma_value_kept_between_writes<T>(start: Vault<T>, trace: Seq<Act<T>>, from: int, to: int)
    requires
        0 <= from <= to <= trace.len(),
        forall|i: int| from <= i < to ==> !(#[trigger] trace[i] is Write),
    ensures
        start.before(trace, to).value == start.before(trace, from).value,
    decreases to - from,
{
    if from < to {
        lemma_value_kept_between_writes(start, trace, from, to - 1);
        lemma_act_by_act(start, trace, to - 1);
    }
}

/// A claim that is held goes away only by the holder's release.
pub proof fn lemma_claim_ends_by_release<T>(start: Vault<T>, trace: Seq<Act<T>>, from: int, to: int) -> (at: int)
    requires
        0 <= from <= to <= trace.len(),
        start.before(trace, from).marker.0 == WAIT,
        start.before(trace, to).marker.0 != WAIT,
    ensures
        from <= at < to,
        trace[at] is Release,
    decreases to - from,
{
    lemma_act_by_act(start, trace, to - 1);
    if start.before(trace, to - 1).marker.0 == WAIT {
        to - 1
    } else {
        lemma_claim_ends_by_release(start, trace, from, to - 1)
    }
}

/// Every store comes before every look: whoever reads finds the value
/// final, never one that is still being written.
pub proof fn lemma_writes_come_before_reads<T>(start: Vault<T>, trace: Seq<Act<T>>, stored: int, looked: int)
    requires
        start.admits(trace),
        0 <= stored < trace.len(),
        0 <= looked < trace.len(),
        trace[stored] is Write,
        trace[looked] is Read,
    ensures
        stored < looked,
{
    lemma_act_by_act(start, trace, stored);
    lemma_act_by_act(start, trace, looked);
    if looked < stored {
        lemma_final_marker_stays(start, trace, looked, stored);
    }
}

/// Whoever reads after the holder has written finds what the holder wrote
/// last, not what the lock held before the claim.
pub proof fn lemma_last_write_is_read<T>(
    start: Vault<T>,
    trace: Seq<Act<T>>,
    stored: int,
    looked: int,
    value: T,
)
    requires
        start.admits(trace),
        0 <= stored < trace.len(),
        0 <= looked < trace.len(),
        trace[stored] == Act::Write(value),
        forall|i: int| stored < i < trace.len() ==> !(#[trigger] trace[i] is Write),
        trace[looked] is Read,
    ensures
        stored < looked,
        start.before(trace, looked).value == value,
{
    lemma_writes_come_before_reads(start, trace, stored, looked);
    lemma_act_by_act(start, trace, stored);
    lemma_value_kept_between_writes(start, trace, stored + 1, looked);
}

/// Whoever reads a lock that no holder has written to finds the value that
/// the lock was built around.
pub proof fn lemma_untouched_value_is_read<T>(start: Vault<T>, trace: Seq<Act<T>>, looked: int)
    requires
        0 <= looked < trace.len(),
        forall|i: int| 0 <= i < trace.len() ==> !(#[trigger] trace[i] is Write),
        trace[looked] is Read,
    ensures
        start.before(trace, looked).value == start.value,
{
    lemma_value_kept_between_writes(start, trace, 0, looked);
    assert(trace.take(0) =~= Seq::<Act<T>>::empty());
}

/// All callers that read find the same value.
pub proof fn lemma_readers_agree<T>(start: Vault<T>, trace: Seq<Act<T>>, first: int, second: int)
    requires
        start.admits(trace),
        0 <= first <= second < trace.len(),
        trace[first] is Read,
        trace[second] is Read,
    ensures
        start.before(trace, first).value == start.before(trace, second).value,
{
    assert forall|i: int| first <= i < second implies !(#[trigger] trace[i] is Write) by {
        if trace[i] is Write {
            lemma_writes_come_before_reads(start, trace, i, first);
        }
    }
    lemma_value_kept_between_writes(start, trace, first, second);
}

/// A read waits for the release: between a claim that was won and any look
/// that comes after it, the holder has dropped the guard.
pub proof fn lemma_read_follows_release<T>(
    start: Vault<T>,
    trace: Seq<Act<T>>,
    claimed: int,
    looked: int,
) -> (released: int)
    requires
        start.admits(trace),
        0 <= claimed < looked < trace.len(),
        trace[claimed] is Claim,
        start.before(trace, claimed).marker.grants(Event::Claim),
        trace[looked] is Read,
    ensures
        claimed < released < looked,
        trace[released] is Release,
{
    lemma_act_by_act(start, trace, claimed);
    lemma_act_by_act(start, trace, looked);
    lemma_claim_ends_by_release(start, trace, claimed + 1, looked)
}

} // verus!
