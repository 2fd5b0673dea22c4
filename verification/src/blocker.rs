//! The mutex on which callers wait for the holder of a claim. It protects no
//! data: holding it is all it is for. This file is the whole of what the
//! library takes on trust from `parking_lot`.
use vstd::prelude::*;

verus! {

/// `parking_lot::RawMutex`, the raw lock inside `parking_lot::Mutex`. Nothing
/// is claimed of it; the declaration only lets the mutex type be named.
#[verifier::external_type_specification]
#[verifier::external_body]
pub struct ExRawMutex(parking_lot::RawMutex);

/// `lock_api::Mutex`, of which `parking_lot::Mutex` is an instance. Nothing is
/// claimed of it; a value of it is carried, never looked into.
#[verifier::external_type_specification]
#[verifier::external_body]
#[verifier::reject_recursive_types(R)]
#[verifier::reject_recursive_types(T)]
pub struct ExMutex<R, T: ?Sized>(parking_lot::lock_api::Mutex<R, T>);

/// A `parking_lot::MutexGuard` that is being held. The mutex stays locked for
/// as long as this value lives and is unlocked when it is dropped; nothing is
/// claimed of it.
#[verifier::external_body]
pub struct Hold<'a> {
    inner: parking_lot::MutexGuard<'a, ()>,
}

/// `parking_lot::Mutex::new(())`: a mutex that nobody holds. Nothing is
/// claimed of the result.
#[verifier::external_body]
pub(crate) fn blocker() -> parking_lot::Mutex<()> {
    parking_lot::Mutex::new(())
}

/// `parking_lot::Mutex::lock`: blocks until nobody else holds the mutex, then
/// holds it. It never panics, and it does not return while another [`Hold`]
/// of the same mutex lives. Nothing is claimed of the result.
#[verifier::external_body]
pub(crate) fn hold<'a>(mutex: &'a parking_lot::Mutex<()>) -> Hold<'a> {
    Hold { inner: mutex.lock() }
}

} // verus!
