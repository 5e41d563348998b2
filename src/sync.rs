use parking_lot::{RwLock, RwLockReadGuard, RwLockWriteGuard};
use vstd::prelude::*;

verus! {

#[verifier::external_type_specification]
#[verifier::external_body]
pub struct ExRawRwLock(parking_lot::RawRwLock);

#[verifier::external_type_specification]
#[verifier::external_body]
#[verifier::reject_recursive_types(R)]
#[verifier::reject_recursive_types(T)]
pub struct ExRwLock<R, T: ?Sized>(parking_lot::lock_api::RwLock<R, T>);

/// Shared hold of a lock, released when dropped. It keeps a parking_lot read
/// guard, a type that Verus cannot be told of: its declaration is bounded by
/// lock_api's `RawRwLock` trait.
#[verifier::external_body]
#[verifier::reject_recursive_types(T)]
pub(crate) struct ReadHold<'a, T> {
    guard: RwLockReadGuard<'a, T>,
}

/// Exclusive hold of a lock, released when dropped. It keeps a parking_lot
/// write guard, for the reason given on `ReadHold`.
#[verifier::external_body]
#[verifier::reject_recursive_types(T)]
pub(crate) struct WriteHold<'a, T> {
    guard: RwLockWriteGuard<'a, T>,
}

/// Relies on lock_api::RwLock::new: an unlocked reader/writer lock around
/// `value`.
#[verifier::external_body]
pub(crate) fn new_lock<T>(value: T) -> RwLock<T> {
    RwLock::new(value)
}

/// Relies on lock_api::RwLock::read: waits until no writer holds the lock and
/// takes it shared, until the guard is dropped.
#[verifier::external_body]
pub(crate) fn read_lock<T>(lock: &RwLock<T>) -> ReadHold<'_, T> {
    ReadHold { guard: lock.read() }
}

/// Relies on lock_api::RwLock::write: waits until no one else holds the lock
/// and takes it exclusively, until the guard is dropped.
#[verifier::external_body]
pub(crate) fn write_lock<T>(lock: &RwLock<T>) -> WriteHold<'_, T> {
    WriteHold { guard: lock.write() }
}

/// Relies on the Deref impl of lock_api::RwLockReadGuard: the value under the
/// lock. What it holds is whatever other threads left there.
#[verifier::external_body]
pub(crate) fn shared<'b, 'a, T>(hold: &'b ReadHold<'a, T>) -> &'b T {
    &*hold.guard
}

/// Relies on the DerefMut impl of lock_api::RwLockWriteGuard: the value under
/// the lock, to change while the lock is held. What it holds is whatever other
/// threads left there.
#[verifier::external_body]
pub(crate) fn exclusive<'b, 'a, T>(hold: &'b mut WriteHold<'a, T>) -> &'b mut T {
    &mut *hold.guard
}

} // verus!
