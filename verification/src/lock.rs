//! The one-shot lock: a value, a marker that tells who may touch it, and a
//! mutex on which late callers wait for the holder of the claim.
//!
//! The marker is an atomic byte, and every change to it is one atomic
//! operation: a [`Event::Claim`] in [`Lock::try_lock`], a [`Event::Settle`]
//! in [`Lock::read`], a [`Event::Release`] when a [`LockGuard`] is dropped.
//! What these events do in any order is worked out in [`crate::protocol`],
//! and what readers find in [`crate::vault`].
//! The value lives in a cell that is opened only for the moment of a read or
//! a replacement and that keeps the lock's invariant.
use crate::blocker::{blocker, hold, Hold};
use crate::state::{Event, State, FREE, INIT, WAIT};
use crate::vault::Vault;
use std::sync::atomic::{AtomicU8, Ordering};
use vstd::prelude::*;
use vstd::rwlock::{RwLock, RwLockPredicate};

verus! {

/// `AtomicU8::store` with sequentially consistent ordering. With that
/// ordering the store never panics, which is all that is claimed here: a
/// guard that is dropped must be able to call it. The one code that a guard
/// may store is what a release makes of a held claim.
#[verifier::external_body]
fn publish(atom: &AtomicU8, code: u8)
    requires
        State(code) == State(WAIT).step(Event::Release),
    opens_invariants none
    no_unwind
{
    atom.store(code, Ordering::SeqCst);
}

/// The invariant of a lock that accepts every value.
pub struct Any;

impl<T> RwLockPredicate<T> for Any {
    open spec fn inv(self, value: T) -> bool {
        true
    }
}

/// A value that at most one caller may claim for writing, and that every
/// other caller reads only once it is final.
///
/// The lock carries an invariant `P`: a predicate that every value ever
/// stored in it satisfies, so that whoever takes a value out knows it holds.
#[verifier::reject_recursive_types(T)]
#[verifier::reject_recursive_types(P)]
pub struct Lock<T, P: RwLockPredicate<T> = Any> {
    atom: AtomicU8,
    lock: parking_lot::Mutex<()>,
    cell: RwLock<T, P>,
    made: Ghost<(State, T)>,
    stored: Ghost<Option<T>>,
}

/// The claim on a [`Lock`]. While it lives its owner alone may replace the
/// value; dropping it makes the value final and wakes the callers that wait.
#[verifier::reject_recursive_types(T)]
#[verifier::reject_recursive_types(P)]
pub struct LockGuard<'a, T, P: RwLockPredicate<T> = Any> {
    mutex: &'a Lock<T, P>,
    _guard: Hold<'a>,
    found: Ghost<State>,
    stored: Ghost<Option<T>>,
}

impl<T, P: RwLockPredicate<T>> Lock<T, P> {
    /// The invariant that the lock was made with.
    pub closed spec fn pred(&self) -> P {
        self.cell.pred()
    }

    /// Whether the lock's invariant allows `value` to be stored in it.
    pub open spec fn inv(&self, value: T) -> bool {
        self.pred().inv(value)
    }

    /// What the lock was made with: the marker it started at and the value
    /// it was built around.
    pub closed spec fn made(&self) -> (State, T) {
        self.made@
    }

    /// Where the life of the lock starts in the terms of [`crate::vault`],
    /// whose laws hold of every run from there.
    pub open spec fn origin(&self) -> Vault<T> {
        Vault { marker: self.made().0, value: self.made().1 }
    }

    /// The value that the sole owner stored last through [`Lock::replace`]
    /// or [`Lock::update`], if it has stored one.
    pub closed spec fn stored(&self) -> Option<T> {
        self.stored@
    }
}

impl<T: Send + Sync> Lock<T, Any> {
    /// An untouched lock around `inner` that accepts every value.
    pub fn new(inner: T) -> (fresh: Lock<T, Any>)
        ensures
            fresh.pred() == Any,
            fresh.made() == (State(INIT), inner),
            fresh.origin() == Vault::fresh(inner),
            fresh.stored() is None,
    {
        Lock::with_invariant(inner, Ghost(Any))
    }
}

impl<T: Default + Send + Sync> Default for Lock<T, Any> {
    /// An untouched lock around the default value of `T`.
    fn default() -> (fresh: Lock<T, Any>)
        ensures
            fresh.pred() == Any,
            fresh.made().0 == State(INIT),
            fresh.stored() is None,
    {
        Lock::new(T::default())
    }
}

impl<T: Send + Sync, P: RwLockPredicate<T>> Lock<T, P> {
    /// An untouched lock around `inner` whose invariant is `pred`, which
    /// `inner` must satisfy.
    pub fn with_invariant(inner: T, Ghost(pred): Ghost<P>) -> (fresh: Lock<T, P>)
        requires
            pred.inv(inner),
        ensures
            fresh.pred() == pred,
            fresh.made() == (State(INIT), inner),
            fresh.origin() == Vault::fresh(inner),
            fresh.stored() is None,
    {
        let start = State(INIT);
        let ghost made = (start, inner);
        Lock {
            atom: AtomicU8::new(start.0),
            lock: blocker(),
            cell: RwLock::new(inner, Ghost(pred)),
            made: Ghost(made),
            stored: Ghost(None),
        }
    }

    /// Lets `event` happen to the marker in one compare-and-swap and returns
    /// the marker that the swap found. An event of this kind acts on an
    /// untouched marker only, so the swap leaves what [`State::step`] makes
    /// of the marker returned
    /// ([`lemma_swap_is_step`](crate::protocol::lemma_swap_is_step)).
    fn attempt(&self, event: Event) -> (found: State)
        requires
            !(event is Release),
    {
        let target = State(INIT).after(event);
        match self.atom.compare_exchange(INIT, target.0, Ordering::SeqCst, Ordering::SeqCst) {
            Ok(code) => State(code),
            Err(code) => State(code),
        }
    }

    /// The marker as it stands at the moment of the call.
    pub fn state(&self) -> State {
        State(self.atom.load(Ordering::SeqCst))
    }

    /// What a claim attempt that found the marker at `found` gets: the
    /// guard of this lock if the attempt has won, nothing otherwise.
    fn grant(&self, found: State) -> (claim: Option<LockGuard<'_, T, P>>)
        ensures
            claim is Some <==> found.grants(Event::Claim),
            claim matches Some(guard) ==> guard.owner() == *self && guard.found() == found && guard.stored() is None,
    {
        if found.admits_claim() {
            Some(LockGuard::new(self, Ghost(found)))
        } else {
            None
        }
    }

    /// Tries to take the claim. Among all callers of an untouched lock
    /// exactly one gets the guard; whoever comes later gets `None`. The
    /// guard, if there is one, belongs to this lock, and the attempt behind
    /// it is one that wins.
    pub fn try_lock(&self) -> (claim: Option<LockGuard<'_, T, P>>)
        ensures
            claim matches Some(guard) ==> guard.owner() == *self && guard.found().grants(
                Event::Claim,
            ) && guard.stored() is None,
    {
        self.grant(self.attempt(Event::Claim))
    }

    /// Whether somebody holds the claim at the moment of the call.
    pub fn is_locked(&self) -> bool {
        self.state().is_claimed()
    }

    /// Returns at once unless somebody holds the claim; then blocks on the
    /// mutex until the holder has dropped the guard.
    ///
    /// The holder takes the mutex right after it has won the claim. A caller
    /// that gets the mutex in between finds the claim still held and queues
    /// up again, so the call returns only when the claim is gone. The rounds
    /// are counted to make the loop end by itself; the limit is out of reach.
    pub fn wait(&self) {
        let mut rounds: u64 = 0;
        while self.is_locked() && rounds < u64::MAX
            decreases u64::MAX - rounds,
        {
            let _ = hold(&self.lock);
            rounds += 1;
        }
    }

    /// Shows the stored value to `visit` without touching the marker.
    fn peek<R, G: FnOnce(&T) -> R>(&self, visit: G) -> (seen: R)
        requires
            forall|value: T| #[trigger] self.inv(value) ==> call_requires(visit, (&value,)),
        ensures
            exists|value: T| #[trigger] self.inv(value) && call_ensures(visit, (&value,), seen),
    {
        let handle = self.cell.acquire_read();
        assert(self.inv(handle.view()));
        let seen = visit(handle.borrow());
        handle.release_read();
        seen
    }

    /// Puts `value` in place of the stored one, which is returned.
    fn swap(&self, value: T) -> (prior: T)
        requires
            self.inv(value),
        ensures
            self.inv(prior),
    {
        let (prior, handle) = self.cell.acquire_write();
        handle.release_write(value);
        prior
    }

    /// Reads the final value: `visit` is called on it and its result handed
    /// back. An untouched lock becomes final on the spot; if somebody holds
    /// the claim the call first blocks until the guard is dropped. The value
    /// shown to `visit` satisfies the lock's invariant.
    ///
    /// The value is shared for as long as `visit` runs. If `visit` panics it
    /// stays shared for good, and a later [`Lock::replace`] or
    /// [`Lock::into_inner`] does not return.
    pub fn read<R, G: FnOnce(&T) -> R>(&self, visit: G) -> (seen: R)
        requires
            forall|value: T| #[trigger] self.inv(value) ==> call_requires(visit, (&value,)),
        ensures
            exists|value: T| #[trigger] self.inv(value) && call_ensures(visit, (&value,), seen),
    {
        let found = self.attempt(Event::Settle);
        let _ = self.attend(found);
        self.peek(visit)
    }

    /// What a reader does who found the marker at `found`: it waits for the
    /// claim to go if the claim is held, and says whether it has waited.
    fn attend(&self, found: State) -> (waits: bool)
        ensures
            waits == (found.0 == WAIT),
    {
        if found.is_claimed() {
            self.wait();
            true
        } else {
            false
        }
    }

    /// Reads the final value, as [`Lock::read`] does, and returns a copy of
    /// it.
    pub fn get(&self) -> (value: T) where T: Copy
        ensures
            self.inv(value),
    {
        let copy = |stored: &T| -> (value: T)
            ensures
                value == *stored,
            { *stored };
        self.read(copy)
    }

    /// Exclusive access for the sole owner: stores `value` and returns the
    /// value it replaces. If a claim is still marked as held (its guard was
    /// leaked) nothing is stored and `value` comes back as the error.
    pub fn replace(&mut self, value: T) -> (swapped: Result<T, T>)
        requires
            old(self).inv(value),
        ensures
            final(self).pred() == old(self).pred(),
            final(self).made() == old(self).made(),
            swapped matches Ok(prior) ==> old(self).inv(prior) && final(self).stored() == Some(value),
            swapped matches Err(back) ==> back == value && final(self).stored() == old(self).stored(),
    {
        let found = self.state();
        self.exchange(found, value)
    }

    /// What the sole owner gets who found the marker at `found` and has
    /// `value` to store: `value` back as the error, and nothing stored, if a
    /// claim is marked as held; else `value` is stored and the value that it
    /// has replaced comes back.
    fn exchange(&mut self, found: State, value: T) -> (swapped: Result<T, T>)
        requires
            old(self).inv(value),
        ensures
            final(self).pred() == old(self).pred(),
            final(self).made() == old(self).made(),
            swapped is Err <==> found.0 == WAIT,
            swapped matches Ok(prior) ==> old(self).inv(prior) && final(self).stored() == Some(value),
            swapped matches Err(back) ==> back == value && final(self).stored() == old(self).stored(),
    {
        if found.is_claimed() {
            Err(value)
        } else {
            let ghost kept = value;
            let prior = self.swap(value);
            self.stored = Ghost(Some(kept));
            Ok(prior)
        }
    }

    /// Puts what `change` makes of the stored value in its place and tells
    /// what it took out and what it put in. The value handed to `change`
    /// satisfies the invariant, and so does what is stored.
    fn apply<G: FnOnce(T) -> T>(&self, change: G) -> (done: Ghost<(T, T)>)
        requires
            forall|value: T| #[trigger] self.inv(value) ==> call_requires(change, (value,)),
            forall|value: T, next: T|
                self.inv(value) && #[trigger] call_ensures(change, (value,), next) ==> self.inv(next),
        ensures
            self.inv(done@.0),
            call_ensures(change, (done@.0,), done@.1),
    {
        let (value, handle) = self.cell.acquire_write();
        assert(self.inv(value));
        let ghost before = value;
        let next = change(value);
        let ghost after = next;
        handle.release_write(next);
        Ghost((before, after))
    }

    /// Exclusive access for the sole owner, in place: puts what `change`
    /// makes of the stored value in its stead and returns `true`. If a claim
    /// is still marked as held (its guard was leaked) nothing is changed,
    /// `change` is not called, and the answer is `false`.
    ///
    /// The value is out of the lock for as long as `change` runs. If
    /// `change` panics the value is lost and no later call that reads or
    /// stores returns.
    pub fn update<G: FnOnce(T) -> T>(&mut self, change: G) -> (changed: bool)
        requires
            forall|value: T| #[trigger] old(self).inv(value) ==> call_requires(change, (value,)),
            forall|value: T, next: T|
                old(self).inv(value) && #[trigger] call_ensures(change, (value,), next) ==> old(
                    self,
                ).inv(next),
        ensures
            final(self).pred() == old(self).pred(),
            final(self).made() == old(self).made(),
            changed ==> exists|value: T, next: T|
                old(self).inv(value) && #[trigger] call_ensures(change, (value,), next) && final(self).stored() == Some(next),
            !changed ==> final(self).stored() == old(self).stored(),
    {
        let found = self.state();
        self.alter(found, change)
    }

    /// What the sole owner does who found the marker at `found` and has
    /// `change` to apply: nothing if a claim is marked as held, else it
    /// stores what `change` makes of the value in the lock.
    fn alter<G: FnOnce(T) -> T>(&mut self, found: State, change: G) -> (changed: bool)
        requires
            forall|value: T| #[trigger] old(self).inv(value) ==> call_requires(change, (value,)),
            forall|value: T, next: T|
                old(self).inv(value) && #[trigger] call_ensures(change, (value,), next) ==> old(
                    self,
                ).inv(next),
        ensures
            final(self).pred() == old(self).pred(),
            final(self).made() == old(self).made(),
            changed == (found.0 != WAIT),
            changed ==> exists|value: T, next: T|
                old(self).inv(value) && #[trigger] call_ensures(change, (value,), next) && final(self).stored() == Some(next),
            !changed ==> final(self).stored() == old(self).stored(),
    {
        if found.is_claimed() {
            false
        } else {
            let done = self.apply(change);
            self.stored = Ghost(Some(done@.1));
            true
        }
    }

    /// Takes the lock apart and returns the stored value, which satisfies
    /// the lock's invariant.
    pub fn into_inner(self) -> (inner: T)
        ensures
            self.inv(inner),
    {
        self.cell.into_inner()
    }
}

impl<'a, T, P: RwLockPredicate<T>> LockGuard<'a, T, P> {
    /// A guard exists only for a claim that was won.
    #[verifier::type_invariant]
    spec fn won(self) -> bool {
        self.found@.grants(Event::Claim)
    }

    /// The lock that this guard holds the claim on.
    pub closed spec fn owner(&self) -> Lock<T, P> {
        *self.mutex
    }

    /// The marker that the claim attempt behind this guard found.
    pub closed spec fn found(&self) -> State {
        self.found@
    }

    /// The value that was stored last through this guard, if one was.
    pub closed spec fn stored(&self) -> Option<T> {
        self.stored@
    }
}

impl<'a, T: Send + Sync, P: RwLockPredicate<T>> LockGuard<'a, T, P> {
    /// Takes the mutex of `mutex` for a claim that has just been won, so that
    /// callers who wait queue up behind the guard.
    fn new(mutex: &'a Lock<T, P>, Ghost(found): Ghost<State>) -> (guard: LockGuard<'a, T, P>)
        requires
            found.grants(Event::Claim),
        ensures
            guard.owner() == *mutex,
            guard.found() == found,
            guard.stored() is None,
    {
        let _guard = hold(&mutex.lock);
        LockGuard { mutex, _guard, found: Ghost(found), stored: Ghost(None) }
    }

    /// Shows the stored value to `visit` and hands back its result.
    pub fn read<R, G: FnOnce(&T) -> R>(&self, visit: G) -> (seen: R)
        requires
            forall|value: T| #[trigger] self.owner().inv(value) ==> call_requires(visit, (&value,)),
        ensures
            exists|value: T| #[trigger] self.owner().inv(value) && call_ensures(visit, (&value,), seen),
    {
        proof {
            assert forall|value: T| #[trigger] self.mutex.inv(value) implies call_requires(
                visit,
                (&value,),
            ) by {
                assert(self.owner().inv(value));
            }
        }
        let seen = self.mutex.peek(visit);
        proof {
            let value = choose|value: T| #[trigger]
                self.mutex.inv(value) && call_ensures(visit, (&value,), seen);
            assert(self.owner().inv(value));
        }
        seen
    }

    /// Stores `value` and returns the value it replaces. Both satisfy the
    /// invariant of the lock, the guard stays with its lock, and `value` is
    /// what it has stored last.
    pub fn replace(&mut self, value: T) -> (prior: T)
        requires
            old(self).owner().inv(value),
        ensures
            final(self).owner() == old(self).owner(),
            final(self).found() == old(self).found(),
            final(self).stored() == Some(value),
            old(self).owner().inv(prior),
    {
        proof {
            use_type_invariant(&*self);
        }
        let ghost kept = value;
        let prior = self.mutex.swap(value);
        self.stored = Ghost(Some(kept));
        prior
    }
}

impl<'a, T: Send + Sync, P: RwLockPredicate<T>> LockGuard<'a, T, P> {
    /// Changes the stored value in place: puts what `change` makes of it in
    /// its stead. The guard stays with its lock, and what `change` made is
    /// what it has stored last.
    ///
    /// The value is out of the lock for as long as `change` runs. If
    /// `change` panics the value is lost, the claim is given back all the
    /// same, and no later call that reads or stores returns.
    pub fn update<G: FnOnce(T) -> T>(&mut self, change: G)
        requires
            forall|value: T| #[trigger] old(self).owner().inv(value) ==> call_requires(change, (value,)),
            forall|value: T, next: T|
                old(self).owner().inv(value) && #[trigger] call_ensures(change, (value,), next) ==> old(
                    self,
                ).owner().inv(next),
        ensures
            final(self).owner() == old(self).owner(),
            final(self).found() == old(self).found(),
            exists|value: T, next: T|
                old(self).owner().inv(value) && #[trigger] call_ensures(change, (value,), next) && final(self).stored() == Some(next),
    {
        proof {
            assert forall|value: T| #[trigger] self.mutex.inv(value) implies call_requires(
                change,
                (value,),
            ) by {
                assert(self.owner().inv(value));
            }
            assert forall|value: T, next: T|
                self.mutex.inv(value) && #[trigger] call_ensures(
                    change,
                    (value,),
                    next,
                ) implies self.mutex.inv(next) by {
                assert(self.owner().inv(value));
            }
        }
        proof {
            use_type_invariant(&*self);
        }
        let done = self.mutex.apply(change);
        self.stored = Ghost(Some(done@.1));
        proof {
            assert(old(self).owner().inv(done@.0));
        }
    }
}

impl<'a, T, P: RwLockPredicate<T>> Drop for LockGuard<'a, T, P> {
    /// Letting go of the claim: the marker becomes [`FREE`], whatever it was,
    /// and after that the mutex is released.
    fn drop(&mut self)
        opens_invariants none
        no_unwind
    {
        let lock = self.mutex;
        publish(&lock.atom, FREE);
    }
}

} // verus!
