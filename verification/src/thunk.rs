//! A value that is computed the first time somebody asks for it, and never
//! again. What callers can do to a thunk at the same time, and why they all
//! end up with one result, is worked out in [`crate::memo`].
use crate::lock::{Lock, LockGuard};
use crate::memo::Tag;
use vstd::prelude::*;
use vstd::rwlock::RwLockPredicate;

verus! {

/// A computation that is ready to run, once.
#[verifier::reject_recursive_types(T)]
pub struct Yield<T, F: FnOnce() -> T> {
    call: F,
}

/// What a [`Thunk`] holds: the computation, nothing while it runs, or its
/// result.
#[verifier::reject_recursive_types(T)]
pub enum Expr<T, F: FnOnce() -> T> {
    /// The computation has not started.
    Deferred(Yield<T, F>),
    /// The computation was taken out and has not come back.
    InProgress,
    /// The computation has returned this value.
    Evaluated(T),
}

/// A lazily computed value. Whoever dereferences it first runs the
/// computation; everyone else waits for that caller and then sees the same
/// result.
#[verifier::reject_recursive_types(T)]
#[verifier::reject_recursive_types(F)]
pub struct Thunk<T, F: FnOnce() -> T> {
    once: Lock<Expr<T, F>, Fits<T>>,
}

/// The invariant of the lock inside a thunk: it stores only expressions that
/// fit the results in `goal`, and only results if the thunk is `settled`.
#[verifier::reject_recursive_types(T)]
pub struct Fits<T> {
    /// The results that the thunk may show.
    pub goal: spec_fn(T) -> bool,
    /// Whether the thunk has held a result from the start.
    pub settled: bool,
}

impl<T, F: FnOnce() -> T> RwLockPredicate<Expr<T, F>> for Fits<T> {
    open spec fn inv(self, expr: Expr<T, F>) -> bool {
        expr.fits(self.goal) && (self.settled ==> expr is Evaluated)
    }
}

impl<T, F: FnOnce() -> T> Yield<T, F> {
    /// The computation can be called.
    #[verifier::type_invariant]
    spec fn callable(self) -> bool {
        call_requires(self.call, ())
    }

    /// Whether `value` is a result that the computation may return.
    pub closed spec fn yields(self, value: T) -> bool {
        call_ensures(self.call, (), value)
    }

    /// Wraps `f`, which must be callable. The wrapper yields what `f`
    /// returns.
    pub fn new(f: F) -> (pending: Yield<T, F>)
        requires
            call_requires(f, ()),
        ensures
            forall|value: T| pending.yields(value) == call_ensures(f, (), value),
    {
        Yield { call: f }
    }

    /// Runs the computation and returns its result.
    pub fn invoke(self) -> (value: T)
        ensures
            self.yields(value),
    {
        proof {
            use_type_invariant(&self);
        }
        (self.call)()
    }
}

impl<T, F: FnOnce() -> T> View for Expr<T, F> {
    type V = Tag<T>;

    /// The expression without its computation.
    open spec fn view(&self) -> Tag<T> {
        match *self {
            Expr::Deferred(_) => Tag::Deferred,
            Expr::InProgress => Tag::InProgress,
            Expr::Evaluated(value) => Tag::Evaluated(value),
        }
    }
}

impl<T, F: FnOnce() -> T> Expr<T, F> {
    /// Whether this expression can stand in a thunk whose results are the
    /// values of `goal`: a result is one of them, and a computation returns
    /// nothing else.
    pub open spec fn fits(self, goal: spec_fn(T) -> bool) -> bool {
        match self {
            Expr::Deferred(pending) => forall|value: T| #[trigger] pending.yields(value) ==> goal(value),
            Expr::InProgress => true,
            Expr::Evaluated(value) => goal(value),
        }
    }

    /// Runs a deferred computation and returns its result as an evaluated
    /// expression. Any other expression comes back as it is.
    pub fn evaluate(self) -> (done: Expr<T, F>)
        ensures
            match self {
                Expr::Deferred(pending) => done matches Expr::Evaluated(value) && pending.yields(value),
                _ => done == self,
            },
    {
        match self {
            Expr::Deferred(pending) => Expr::Evaluated(pending.invoke()),
            other => other,
        }
    }

    /// Whether the computation has yet to start.
    pub fn is_deferred(&self) -> (pending: bool)
        ensures
            pending == (self is Deferred),
            pending == (self@ is Deferred),
    {
        match self {
            Expr::Deferred(_) => true,
            _ => false,
        }
    }

    /// Whether `seen` is what a caller is shown who finds this expression
    /// and has `visit` to look with: what `visit` returns on the result if
    /// there is one, nothing otherwise.
    pub open spec fn shows<R, G: FnOnce(&T) -> R>(self, visit: G, seen: Option<R>) -> bool {
        match self {
            Expr::Evaluated(value) => seen matches Some(shown) && call_ensures(visit, (&value,), shown),
            _ => seen is None,
        }
    }

    /// Shows the result to `visit` and hands back what it returns; hands back
    /// nothing, and leaves `visit` alone, if there is no result.
    pub fn show<R, G: FnOnce(&T) -> R>(&self, visit: G) -> (seen: Option<R>)
        requires
            self matches Expr::Evaluated(value) ==> call_requires(visit, (&value,)),
        ensures
            self.shows(visit, seen),
    {
        match self {
            Expr::Evaluated(value) => Some(visit(value)),
            _ => None,
        }
    }

    /// What a sole owner gets who finds this expression and has `change` to
    /// apply: what `change` makes of the result if there is one, else the
    /// expression back as it is, with `change` left alone.
    pub fn amend<G: FnOnce(T) -> T>(self, change: G) -> (out: Result<T, Expr<T, F>>)
        requires
            self matches Expr::Evaluated(value) ==> call_requires(change, (value,)),
        ensures
            match self {
                Expr::Evaluated(value) => out matches Ok(next) && call_ensures(change, (value,), next),
                _ => out == Err::<T, Expr<T, F>>(self),
            },
    {
        match self {
            Expr::Evaluated(value) => Ok(change(value)),
            other => Err(other),
        }
    }

    /// The result, if the computation has returned one.
    pub fn value(&self) -> (result: Option<&T>)
        ensures
            match *self {
                Expr::Evaluated(value) => result == Some(&value),
                _ => result is None,
            },
            match self@ {
                Tag::Evaluated(value) => result == Some(&value),
                _ => result is None,
            },
    {
        match self {
            Expr::Evaluated(value) => Some(value),
            _ => None,
        }
    }
}

impl<T, F: FnOnce() -> T> Thunk<T, F> {
    /// Whether `value` is a result that dereferencing this thunk may show.
    pub closed spec fn produces(&self, value: T) -> bool {
        (self.once.pred().goal)(value)
    }

    /// Whether the thunk is known to hold a result: it was built around a
    /// value, or a result was put in place by [`Thunk::update`]. Such a thunk
    /// runs nothing, and every dereference shows the result.
    pub closed spec fn settled(&self) -> bool {
        self.once.pred().settled
    }

    /// What the thunk was made around, leaving aside what the computation
    /// is: a computation that has yet to start, or a result.
    pub closed spec fn begins(&self) -> Tag<T> {
        self.once.made().1@
    }

    /// Whether the thunk was made around a computation that may return
    /// `value`.
    pub closed spec fn defers(&self, value: T) -> bool {
        match self.once.made().1 {
            Expr::Deferred(pending) => pending.yields(value),
            _ => false,
        }
    }
}

impl<T: Send + Sync, F: FnOnce() -> T + Send + Sync> Thunk<T, F> {
    /// A thunk that will run `f` when it is first dereferenced. Nothing runs
    /// now. The thunk is made around `f`, and it produces exactly what `f`
    /// may return.
    pub fn lazy(f: F) -> (thunk: Thunk<T, F>)
        requires
            call_requires(f, ()),
        ensures
            forall|value: T| thunk.produces(value) == call_ensures(f, (), value),
            forall|value: T| thunk.defers(value) == call_ensures(f, (), value),
            thunk.begins() is Deferred,
            !thunk.settled(),
    {
        let ghost goal = |value: T| call_ensures(f, (), value);
        let expr = Expr::Deferred(Yield::new(f));
        Thunk { once: Lock::with_invariant(expr, Ghost(Fits { goal, settled: false })) }
    }

    /// A thunk that is made around `val`: no computation will ever run, and
    /// `val` is all it produces.
    pub fn eval(val: T) -> (thunk: Thunk<T, F>)
        ensures
            forall|value: T| thunk.produces(value) == (value == val),
            forall|value: T| !thunk.defers(value),
            thunk.begins() == Tag::Evaluated(val),
            thunk.settled(),
    {
        let ghost goal = |value: T| value == val;
        let once = Lock::with_invariant(Expr::Evaluated(val), Ghost(Fits { goal, settled: true }));
        let _ = once.try_lock();
        Thunk { once }
    }

    /// What the winner of the claim does with the expression `found` that it
    /// has taken out of the lock. A computation is run and its result stored.
    /// Anything else is what no winner of a claim should find: it is put
    /// back as it was, and the answer is `false`.
    fn compute(lock: &mut LockGuard<'_, Expr<T, F>, Fits<T>>, found: Expr<T, F>) -> (sound: bool)
        requires
            old(lock).owner().inv(found),
            !old(lock).owner().pred().settled,
        ensures
            final(lock).owner() == old(lock).owner(),
            match found {
                Expr::Deferred(pending) => sound && (final(lock).stored() matches Some(
                    Expr::Evaluated(value),
                ) && pending.yields(value)),
                _ => !sound && final(lock).stored() == Some(found),
            },
    {
        let sound = found.is_deferred();
        let done = found.evaluate();
        let _ = lock.replace(done);
        sound
    }

    /// What the winner of the claim does once it has looked into the lock
    /// and seen whether the computation is `pending` there. If it is, the
    /// winner takes it out and goes on to [`Thunk::compute`], so that what
    /// it stores last is no pending computation. If not, it stores nothing
    /// and answers `false`.
    fn work(lock: &mut LockGuard<'_, Expr<T, F>, Fits<T>>, pending: bool) -> (sound: bool)
        requires
            pending ==> !old(lock).owner().pred().settled,
        ensures
            final(lock).owner() == old(lock).owner(),
            pending ==> (final(lock).stored() matches Some(kept) && !(kept is Deferred)),
            !pending ==> !sound && final(lock).stored() == old(lock).stored(),
    {
        if pending {
            let found = lock.replace(Expr::InProgress);
            Self::compute(lock, found)
        } else {
            false
        }
    }

    /// Makes sure the computation has run, as [`Thunk::force`] does, and
    /// tells whether all was as it should be. The answer is `false` if this
    /// caller has won the claim and found in the lock something other than
    /// the computation, which no winner of a claim should find. Then nothing
    /// runs, the lock is left to hold what it held, and the claim is given
    /// back.
    pub fn try_force(thunk: &Thunk<T, F>) -> (sound: bool) {
        match thunk.once.try_lock() {
            Some(mut lock) => {
                let pending = |expr: &Expr<T, F>| -> (pending: bool)
                    ensures
                        pending == (expr is Deferred),
                    { expr.is_deferred() };
                let found = lock.read(pending);
                Self::work(&mut lock, found)
            },
            None => {
                thunk.once.wait();
                true
            },
        }
    }

    /// Makes sure the computation has run. The caller that wins the claim
    /// runs it and stores the result; every other caller waits until the
    /// winner has let go.
    ///
    /// In the moves of [`crate::memo::Move`]: every caller makes a `Claim`.
    /// The winner looks at what the lock holds. If that is the computation,
    /// it goes on with `Start`, then `Store` if the computation returns. Then
    /// comes `Release`, which happens even if the computation panics. The
    /// computation is consumed by its call, so no second `Start` can follow.
    pub fn force(thunk: &Thunk<T, F>) {
        let _ = Self::try_force(thunk);
    }

    /// Dereferences the thunk: makes sure the computation has run, then calls
    /// `visit` on the result and hands back what it returns. The value shown
    /// to `visit` is one that the thunk produces. A settled thunk always
    /// shows its result.
    ///
    /// `None` means that the caller found no result in the lock. That is so
    /// after a computation that panicked: the claim is given back all the
    /// same, and nothing runs the computation again.
    pub fn read<R, G: FnOnce(&T) -> R>(&self, visit: G) -> (seen: Option<R>)
        requires
            forall|value: T| #[trigger] self.produces(value) ==> call_requires(visit, (&value,)),
        ensures
            seen matches Some(shown) ==> exists|value: T|
                #[trigger] self.produces(value) && call_ensures(visit, (&value,), shown),
            self.settled() ==> seen is Some,
    {
        Self::force(self);
        let look = |expr: &Expr<T, F>| -> (seen: Option<R>)
            requires
                self.once.inv(*expr),
            ensures
                expr.shows(visit, seen),
            {
                proof {
                    if expr@ is Evaluated {
                        assert(self.produces(expr@->Evaluated_0));
                    }
                }
                expr.show(visit)
            };
        let seen = self.once.read(look);
        proof {
            let expr = choose|expr: Expr<T, F>| #[trigger]
                self.once.inv(expr) && call_ensures(look, (&expr,), seen);
            if expr@ is Evaluated {
                assert(self.produces(expr@->Evaluated_0));
            }
        }
        seen
    }

    /// Dereferences the thunk, as [`Thunk::read`] does, and returns a copy of
    /// the result, which is one that the thunk produces. A settled thunk
    /// always returns its result.
    pub fn get(&self) -> (result: Option<T>) where T: Copy
        ensures
            result matches Some(value) ==> self.produces(value),
            self.settled() ==> result is Some,
    {
        let copy = |stored: &T| -> (value: T)
            ensures
                value == *stored,
            { *stored };
        self.read(copy)
    }

    /// Dereferences the thunk for its sole owner and changes the result in
    /// place: makes sure the computation has run, then puts what `change`
    /// makes of the result in its stead. From then on the thunk is settled
    /// and produces that value and no other. A settled thunk is always
    /// changed. Returns `false`, and leaves the thunk to produce what it did,
    /// if no result is stored. If `change` panics the thunk is left without a
    /// result.
    pub fn update<G: FnOnce(T) -> T>(&mut self, change: G) -> (changed: bool)
        requires
            forall|value: T| #[trigger] old(self).produces(value) ==> call_requires(change, (value,)),
        ensures
            changed ==> final(self).settled() && exists|value: T, next: T| #[trigger]
                call_ensures(change, (value,), next) && old(self).produces(value) && forall|other: T| #[trigger]
                    final(self).produces(other) <==> other == next,
            !changed ==> final(self).settled() == old(self).settled() && forall|value: T| #[trigger]
                final(self).produces(value) == old(self).produces(value),
            old(self).settled() ==> changed,
    {
        Self::force(self);
        let ghost kept = self.once.pred();
        let mut once = Lock::with_invariant(
            Expr::InProgress,
            Ghost(Fits { goal: kept.goal, settled: false }),
        );
        std::mem::swap(&mut self.once, &mut once);
        let found = once.into_inner();
        assert(found matches Expr::Evaluated(value) ==> old(self).produces(value));
        match found.amend(change) {
            Ok(next) => {
                *self = Thunk::eval(next);
                true
            },
            Err(other) => {
                let once = Lock::with_invariant(other, Ghost(kept));
                let _ = once.try_lock();
                self.once = once;
                false
            },
        }
    }
}

} // verus!
