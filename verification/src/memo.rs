//! The life of a thunk as its callers can see it: the marker of its lock, the
//! expression it holds, and how often its computation has been started.
//! Every race between callers amounts to some sequence of the moves below.
use crate::state::{Event, State, FREE, INIT, WAIT};
use vstd::prelude::*;

verus! {

/// What a thunk holds, leaving aside what the computation is.
pub enum Tag<T> {
    /// The computation has not started.
    Deferred,
    /// The computation was taken out and has not come back.
    InProgress,
    /// The computation has returned this value.
    Evaluated(T),
}

/// A thunk seen from outside.
pub struct Memo<T> {
    /// The marker of the lock.
    pub marker: State,
    /// What the lock holds.
    pub tag: Tag<T>,
    /// How many times the computation has been started.
    pub runs: nat,
}

/// One atomic step of a caller that forces or dereferences the thunk.
pub enum Move<T> {
    /// Any caller tries to take the claim.
    Claim,
    /// The holder of the claim takes the computation out and starts it.
    Start,
    /// The holder of the claim stores what the computation returned.
    Store(T),
    /// The holder of the claim drops the guard. By then it has taken the
    /// computation out; whether a result is stored depends on whether the
    /// computation returned.
    Release,
    /// A caller that has tried to claim goes on to read. Its own attempt has
    /// come first, so it finds the marker touched and leaves it as it is.
    Settle,
    /// A caller looks at what the thunk holds, after the value is final.
    Observe,
}

impl<T> Memo<T> {
    /// A thunk that was built around a computation.
    pub open spec fn lazy() -> Memo<T> {
        Memo { marker: State(INIT), tag: Tag::Deferred, runs: 0 }
    }

    /// A thunk that was built around a value.
    pub open spec fn eval(value: T) -> Memo<T> {
        Memo { marker: State(FREE), tag: Tag::Evaluated(value), runs: 0 }
    }

    /// Whether `next` can happen to this thunk.
    pub open spec fn enables(self, next: Move<T>) -> bool {
        match next {
            Move::Claim => true,
            Move::Start => self.marker.0 == WAIT && self.tag is Deferred,
            Move::Store(_) => self.marker.0 == WAIT && self.tag is InProgress,
            Move::Release => self.marker.enables(Event::Release) && !(self.tag is Deferred),
            Move::Settle => self.marker.0 != INIT,
            Move::Observe => self.marker.0 == FREE,
        }
    }

    /// The thunk after `next` happened to it.
    pub open spec fn step(self, next: Move<T>) -> Memo<T> {
        match next {
            Move::Claim => Memo { marker: self.marker.step(Event::Claim), ..self },
            Move::Start => Memo { tag: Tag::InProgress, runs: self.runs + 1, ..self },
            Move::Store(value) => Memo { tag: Tag::Evaluated(value), ..self },
            Move::Release => Memo { marker: self.marker.step(Event::Release), ..self },
            Move::Settle => Memo { marker: self.marker.step(Event::Settle), ..self },
            Move::Observe => self,
        }
    }

    /// What ties marker, expression and count together in every thunk that
    /// can be reached: untouched means not started, final means taken out,
    /// and the computation has started at most once.
    pub open spec fn sound(self) -> bool {
        &&& self.marker.valid()
        &&& self.runs <= 1
        &&& self.marker.0 == INIT ==> self.tag is Deferred
        &&& self.marker.0 == FREE ==> !(self.tag is Deferred)
        &&& self.tag is Deferred ==> self.runs == 0
        &&& self.tag is InProgress ==> self.runs == 1
    }

    /// What holds besides of a thunk that was built around a computation: a
    /// result is there only if the computation was started.
    pub open spec fn worked(self) -> bool {
        self.tag is Evaluated ==> self.runs == 1
    }

    /// The thunk after the moves of `trace` happened to it, in order.
    pub open spec fn run(self, trace: Seq<Move<T>>) -> Memo<T>
        decreases trace.len(),
    {
        if trace.len() == 0 {
            self
        } else {
            self.run(trace.drop_last()).step(trace.last())
        }
    }

    /// Whether every move of `trace` can happen when its turn comes.
    pub open spec fn admits(self, trace: Seq<Move<T>>) -> bool
        decreases trace.len(),
    {
        trace.len() == 0 || (self.admits(trace.drop_last()) && self.run(trace.drop_last()).enables(
            trace.last(),
        ))
    }

    /// What a caller sees who looks at the thunk when move number `at` of
    /// `trace` is about to happen.
    pub open spec fn seen(self, trace: Seq<Move<T>>, at: int) -> Tag<T> {
        self.run(trace.take(at)).tag
    }
}

/// A move that can happen keeps a sound thunk sound.
pub proof fn lemma_step_keeps_sound<T>(memo: Memo<T>, next: Move<T>)
    requires
        memo.sound(),
        memo.enables(next),
    ensures
        memo.step(next).sound(),
{
}

/// Every thunk that can be reached from a sound one is sound.
pub proof fn lemma_run_keeps_sound<T>(start: Memo<T>, trace: Seq<Move<T>>)
    requires
        start.sound(),
        start.admits(trace),
    ensures
        start.run(trace).sound(),
    decreases trace.len(),
{
    if trace.len() > 0 {
        lemma_run_keeps_sound(start, trace.drop_last());
        lemma_step_keeps_sound(start.run(trace.drop_last()), trace.last());
    }
}

/// A run can be cut at any point: the first part can happen, the rest can
/// happen to what the first part leaves, and together they end where the
/// whole run ends.
pub proof fn lemma_run_in_two<T>(start: Memo<T>, trace: Seq<Move<T>>, at: int)
    requires
        0 <= at <= trace.len(),
    ensures
        start.run(trace) == start.run(trace.take(at)).run(trace.skip(at)),
        start.admits(trace) ==> start.admits(trace.take(at)) && start.run(trace.take(at)).admits(
            trace.skip(at),
        ),
    decreases trace.len(),
{
    if at == trace.len() {
        assert(trace.take(at) =~= trace);
    } else {
        let before = trace.drop_last();
        lemma_run_in_two(start, before, at);
        assert(before.take(at) =~= trace.take(at));
        assert(before.skip(at) =~= trace.skip(at).drop_last());
        assert(trace.skip(at).last() == trace.last());
    }
}

/// In a run that can happen, each move can happen at its turn.
pub proof fn lemma_move_is_enabled<T>(start: Memo<T>, trace: Seq<Move<T>>, at: int)
    requires
        start.admits(trace),
        0 <= at < trace.len(),
    ensures
        start.admits(trace.take(at)),
        start.run(trace.take(at)).enables(trace[at]),
    decreases trace.len(),
{
    if at == trace.len() - 1 {
        assert(trace.take(at) =~= trace.drop_last());
    } else {
        lemma_move_is_enabled(start, trace.drop_last(), at);
        assert(trace.drop_last().take(at) =~= trace.take(at));
    }
}

/// Idempotence: once the value is final, nothing that callers do changes
/// the thunk. No further work is done and the same result stays in place.
pub proof fn lemma_final_thunk_stays<T>(start: Memo<T>, trace: Seq<Move<T>>)
    requires
        start.marker.0 == FREE,
        start.admits(trace),
    ensures
        start.run(trace) == start,
    decreases trace.len(),
{
    if trace.len() > 0 {
        lemma_final_thunk_stays(start, trace.drop_last());
    }
}

/// A result, once stored, is never replaced.
pub proof fn lemma_result_stays<T>(start: Memo<T>, trace: Seq<Move<T>>)
    requires
        start.tag is Evaluated,
        start.admits(trace),
    ensures
        start.run(trace).tag == start.tag,
        start.run(trace).runs == start.runs,
    decreases trace.len(),
{
    if trace.len() > 0 {
        lemma_result_stays(start, trace.drop_last());
    }
}

/// In a thunk that was built around a computation, no result appears
/// without the computation having been started.
pub proof fn lemma_result_comes_from_work<T>(start: Memo<T>, trace: Seq<Move<T>>)
    requires
        start.sound(),
        start.worked(),
        start.admits(trace),
    ensures
        start.run(trace).worked(),
    decreases trace.len(),
{
    if trace.len() > 0 {
        lemma_result_comes_from_work(start, trace.drop_last());
        lemma_run_keeps_sound(start, trace.drop_last());
    }
}

/// The computation of a lazy thunk is started at most once, however many
/// callers force it, and exactly once by the time the value is final.
pub proof fn lemma_computation_runs_once<T>(trace: Seq<Move<T>>)
    requires
        Memo::<T>::lazy().admits(trace),
    ensures
        Memo::<T>::lazy().run(trace).runs <= 1,
        Memo::<T>::lazy().run(trace).marker.0 == FREE ==> Memo::<T>::lazy().run(trace).runs == 1,
{
    lemma_run_keeps_sound(Memo::<T>::lazy(), trace);
    lemma_result_comes_from_work(Memo::<T>::lazy(), trace);
}

/// Whoever looks at a lazy thunk finds that its computation was started
/// exactly once, however many callers have forced it by then.
pub proof fn lemma_one_run_before_any_look<T>(trace: Seq<Move<T>>, looked: int)
    requires
        Memo::<T>::lazy().admits(trace),
        0 <= looked < trace.len(),
        trace[looked] is Observe,
    ensures
        Memo::<T>::lazy().run(trace.take(looked)).runs == 1,
{
    lemma_move_is_enabled(Memo::<T>::lazy(), trace, looked);
    lemma_computation_runs_once(trace.take(looked));
}

/// A thunk built around a value never runs anything, and shows that value
/// to everyone.
pub proof fn lemma_eval_never_runs<T>(value: T, trace: Seq<Move<T>>)
    requires
        Memo::eval(value).admits(trace),
    ensures
        Memo::eval(value).run(trace) == Memo::eval(value),
{
    lemma_final_thunk_stays(Memo::eval(value), trace);
}

/// Every caller sees the same thing: two callers who look at the thunk, at
/// whatever times, find the same expression there, and it is not a
/// computation that has yet to start.
pub proof fn lemma_observers_agree<T>(start: Memo<T>, trace: Seq<Move<T>>, first: int, second: int)
    requires
        start.sound(),
        start.admits(trace),
        0 <= first <= second < trace.len(),
        trace[first] is Observe,
        trace[second] is Observe,
    ensures
        start.seen(trace, first) == start.seen(trace, second),
        !(start.seen(trace, first) is Deferred),
{
    let early = trace.take(second);
    lemma_move_is_enabled(start, trace, first);
    lemma_move_is_enabled(start, trace, second);
    lemma_run_keeps_sound(start, trace.take(first));
    lemma_run_in_two(start, early, first);
    assert(early.take(first) =~= trace.take(first));
    lemma_final_thunk_stays(start.run(trace.take(first)), early.skip(first));
}

/// Every caller sees the result of the one computation: if the computation
/// returned `value` and the holder stored it, then every caller who looks at
/// the thunk does so afterwards and finds `value`.
pub proof fn lemma_stored_result_is_seen<T>(
    start: Memo<T>,
    trace: Seq<Move<T>>,
    stored: int,
    looked: int,
    value: T,
)
    requires
        start.sound(),
        start.admits(trace),
        0 <= stored < trace.len(),
        0 <= looked < trace.len(),
        trace[stored] == Move::Store(value),
        trace[looked] is Observe,
    ensures
        stored < looked,
        start.seen(trace, looked) == Tag::Evaluated(value),
{
    lemma_move_is_enabled(start, trace, stored);
    lemma_move_is_enabled(start, trace, looked);
    if looked < stored {
        let early = trace.take(stored);
        lemma_run_in_two(start, early, looked);
        assert(early.take(looked) =~= trace.take(looked));
        lemma_final_thunk_stays(start.run(trace.take(looked)), early.skip(looked));
    } else {
        let early = trace.take(looked);
        lemma_run_in_two(start, early, stored + 1);
        let upto = early.take(stored + 1);
        assert(upto.drop_last() =~= trace.take(stored));
        assert(upto.last() == trace[stored]);
        lemma_result_stays(start.run(upto), early.skip(stored + 1));
    }
}

} // verus!
