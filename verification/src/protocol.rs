//! Runs of the marker. The atomic operations on the marker are totally
//! ordered, so whatever callers do at the same time amounts to some sequence
//! of events; what holds of every sequence holds of every race.
use crate::state::{Event, State, FREE, INIT, WAIT};
use vstd::prelude::*;

verus! {

/// The marker after the events of `trace` happened to `start`, in order.
pub open spec fn run(start: State, trace: Seq<Event>) -> State
    decreases trace.len(),
{
    if trace.len() == 0 {
        start
    } else {
        run(start, trace.drop_last()).step(trace.last())
    }
}

/// Whether every event of `trace` can happen when its turn comes.
pub open spec fn admissible(start: State, trace: Seq<Event>) -> bool
    decreases trace.len(),
{
    trace.len() == 0 || (admissible(start, trace.drop_last()) && run(
        start,
        trace.drop_last(),
    ).enables(trace.last()))
}

/// How many events of `trace` hand their caller the claim.
pub open spec fn granted(start: State, trace: Seq<Event>) -> nat
    decreases trace.len(),
{
    if trace.len() == 0 {
        0
    } else if run(start, trace.drop_last()).grants(trace.last()) {
        granted(start, trace.drop_last()) + 1
    } else {
        granted(start, trace.drop_last())
    }
}

/// How many events of `trace` give a claim back.
pub open spec fn released(trace: Seq<Event>) -> nat
    decreases trace.len(),
{
    if trace.len() == 0 {
        0
    } else if trace.last() is Release {
        released(trace.drop_last()) + 1
    } else {
        released(trace.drop_last())
    }
}

/// What a compare-and-swap from `from` to `to` leaves of a marker that it
/// finds at `found`.
pub open spec fn swapped(found: State, from: u8, to: u8) -> State {
    if found.0 == from {
        State(to)
    } else {
        found
    }
}

/// A claim and a settling read are one compare-and-swap each: swapping the
/// untouched marker for what the event makes of it does to every marker
/// what the event does.
pub proof fn lemma_swap_is_step(found: State, event: Event)
    requires
        !(event is Release),
    ensures
        swapped(found, INIT, State(INIT).step(event).0) == found.step(event),
{
}

/// No event moves the marker back, and none makes it leave the three values
/// of the protocol.
pub proof fn lemma_step_moves_forward(marker: State, event: Event)
    requires
        marker.valid(),
    ensures
        marker.step(event).valid(),
        marker.rank() <= marker.step(event).rank(),
{
}

/// Over any run the marker only moves forward.
pub proof fn lemma_run_moves_forward(start: State, trace: Seq<Event>)
    requires
        start.valid(),
    ensures
        run(start, trace).valid(),
        start.rank() <= run(start, trace).rank(),
    decreases trace.len(),
{
    if trace.len() > 0 {
        lemma_run_moves_forward(start, trace.drop_last());
        lemma_step_moves_forward(run(start, trace.drop_last()), trace.last());
    }
}

/// Once the value is final it stays final, whatever happens next.
pub proof fn lemma_free_is_final(trace: Seq<Event>)
    ensures
        run(State(FREE), trace) == State(FREE),
    decreases trace.len(),
{
    if trace.len() > 0 {
        lemma_free_is_final(trace.drop_last());
    }
}

/// At most one guard exists at any time: over a run from an untouched lock
/// at most one claim is granted, no claim is given back that was not
/// granted, and a claim is out exactly while the marker is `WAIT`.
pub proof fn lemma_one_guard_at_a_time(trace: Seq<Event>)
    requires
        admissible(State(INIT), trace),
    ensures
        released(trace) <= granted(State(INIT), trace) <= 1,
        granted(State(INIT), trace) == released(trace) + 1 <==> run(State(INIT), trace) == State(
            WAIT,
        ),
        run(State(INIT), trace) == State(INIT) ==> granted(State(INIT), trace) == 0,
    decreases trace.len(),
{
    if trace.len() > 0 {
        lemma_one_guard_at_a_time(trace.drop_last());
        lemma_run_moves_forward(State(INIT), trace.drop_last());
    }
}

/// Who comes first decides: over a run from an untouched lock a claim is
/// granted exactly if the first event is a claim, and then it is that one.
pub proof fn lemma_first_event_decides(trace: Seq<Event>)
    requires
        admissible(State(INIT), trace),
        trace.len() > 0,
    ensures
        granted(State(INIT), trace) == if trace[0] is Claim { 1nat } else { 0nat },
        run(State(INIT), trace) != State(INIT),
    decreases trace.len(),
{
    let before = trace.drop_last();
    if before.len() > 0 {
        lemma_first_event_decides(before);
        assert(before[0] == trace[0]);
    } else {
        assert(run(State(INIT), before) == State(INIT));
        assert(granted(State(INIT), before) == 0);
    }
}

/// However many callers race for the claim on an untouched lock, and
/// whenever the winner lets go in between, exactly one of them gets it.
pub proof fn lemma_race_has_one_winner(trace: Seq<Event>)
    requires
        admissible(State(INIT), trace),
        trace.len() > 0,
        forall|i: int| 0 <= i < trace.len() ==> !(trace[i] is Settle),
    ensures
        granted(State(INIT), trace) == 1,
{
    lemma_first_event_decides(trace);
    lemma_admissible_prefix(State(INIT), trace, 1);
    let first = trace.take(1);
    assert(run(State(INIT), first.drop_last()) == State(INIT));
    assert(first.last() == trace[0]);
}

/// A run that can happen can happen up to any point.
pub proof fn lemma_admissible_prefix(start: State, trace: Seq<Event>, upto: int)
    requires
        admissible(start, trace),
        0 <= upto <= trace.len(),
    ensures
        admissible(start, trace.take(upto)),
    decreases trace.len(),
{
    if upto == trace.len() {
        assert(trace.take(upto) =~= trace);
    } else {
        lemma_admissible_prefix(start, trace.drop_last(), upto);
        assert(trace.drop_last().take(upto) =~= trace.take(upto));
    }
}

} // verus!
