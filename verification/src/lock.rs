//! The reader-writer lock of the standard library, as far as this crate uses
//! it.
//!
//! What lies behind a lock is changed by other threads between any two
//! calls, so nothing here says what a guard gives access to: the contracts
//! say which calls a guard and an access came from.
use vstd::prelude::*;
use std::sync::PoisonError;
use std::sync::RwLock;
use std::sync::RwLockReadGuard;
use std::sync::RwLockWriteGuard;

verus! {

/// `std::sync::RwLock`, as a type whose values say nothing of what they hold.
#[verifier::external_type_specification]
#[verifier::external_body]
#[verifier::reject_recursive_types(T)]
pub struct ExRwLock<T: ?Sized>(RwLock<T>);

/// `std::sync::RwLockReadGuard`, as a type whose values say nothing of what
/// they give access to.
#[verifier::external_type_specification]
#[verifier::external_body]
#[verifier::reject_recursive_types(T)]
pub struct ExRwLockReadGuard<'a, T: ?Sized>(RwLockReadGuard<'a, T>);

/// `std::sync::RwLockWriteGuard`, as a type whose values say nothing of what
/// they give access to.
#[verifier::external_type_specification]
#[verifier::external_body]
#[verifier::reject_recursive_types(T)]
pub struct ExRwLockWriteGuard<'a, T: ?Sized + 'a>(RwLockWriteGuard<'a, T>);

/// `std::sync::PoisonError`, as a type whose values say nothing of the guard
/// they hold.
#[verifier::external_type_specification]
#[verifier::external_body]
#[verifier::reject_recursive_types(T)]
pub struct ExPoisonError<T>(PoisonError<T>);

/// `RwLock::new`: a lock around `content`. Nothing is claimed of the lock.
#[verifier::external_body]
pub(crate) fn lock_new<T>(content: T) -> (lock: RwLock<T>) {
    RwLock::new(content)
}

/// `RwLock::read`: waits for shared access. The lock is poisoned if a writer
/// panicked while it held the lock. Nothing is claimed of the outcome.
#[verifier::external_body]
pub(crate) fn try_read<T>(lock: &RwLock<T>) -> (outcome: Result<
    RwLockReadGuard<'_, T>,
    PoisonError<RwLockReadGuard<'_, T>>,
>) {
    lock.read()
}

/// `RwLock::write`: waits for exclusive access. The lock is poisoned if a
/// writer panicked while it held the lock. Nothing is claimed of the outcome.
#[verifier::external_body]
pub(crate) fn try_write<T>(lock: &RwLock<T>) -> (outcome: Result<
    RwLockWriteGuard<'_, T>,
    PoisonError<RwLockWriteGuard<'_, T>>,
>) {
    lock.write()
}

/// `PoisonError::into_inner`: the guard that came with the report of a
/// poisoned lock. Nothing is claimed of the guard.
#[verifier::external_body]
pub(crate) fn take_over<G>(poisoned: PoisonError<G>) -> (guard: G) {
    poisoned.into_inner()
}

/// `Deref::deref` of a read guard: the content of the lock, for reading.
/// Nothing is claimed of the content.
#[verifier::external_body]
pub(crate) fn read_access<'a, 'b, T>(guard: &'a RwLockReadGuard<'b, T>) -> (content: &'a T) {
    guard
}

/// `DerefMut::deref_mut` of a write guard: the content of the lock, for
/// reading and writing. Nothing is claimed of the content.
#[verifier::external_body]
pub(crate) fn write_access<'a, 'b, T>(guard: &'a mut RwLockWriteGuard<'b, T>) -> (content:
    &'a mut T) {
    guard
}

/// `guard` is what a request for shared access to `lock` gave: the guard
/// itself, or the guard that came with the report of a poisoned lock.
pub(crate) open spec fn read_taken<T>(lock: &RwLock<T>, guard: RwLockReadGuard<'_, T>) -> bool {
    exists|outcome: Result<RwLockReadGuard<'_, T>, PoisonError<RwLockReadGuard<'_, T>>>|
        #[trigger] call_ensures(try_read::<T>, (lock,), outcome) && match outcome {
            Ok(given) => given == guard,
            Err(poisoned) => call_ensures(take_over::<RwLockReadGuard<'_, T>>, (poisoned,), guard),
        }
}

/// `guard` is what a request for exclusive access to `lock` gave: the guard
/// itself, or the guard that came with the report of a poisoned lock.
pub(crate) open spec fn write_taken<T>(lock: &RwLock<T>, guard: RwLockWriteGuard<'_, T>) -> bool {
    exists|outcome: Result<RwLockWriteGuard<'_, T>, PoisonError<RwLockWriteGuard<'_, T>>>|
        #[trigger] call_ensures(try_write::<T>, (lock,), outcome) && match outcome {
            Ok(given) => given == guard,
            Err(poisoned) => call_ensures(take_over::<RwLockWriteGuard<'_, T>>, (poisoned,), guard),
        }
}

/// A reader took `lock` and found `content` behind it.
pub(crate) open spec fn found<T>(lock: &RwLock<T>, content: T) -> bool {
    exists|guard: RwLockReadGuard<'_, T>|
        read_taken(lock, guard) && #[trigger] call_ensures(read_access::<T>, (&guard,), &content)
}

/// A writer took `lock` and `access` is its access to what lies behind it.
pub(crate) open spec fn opened<T>(lock: &RwLock<T>, access: &mut T) -> bool {
    exists|handle: &mut RwLockWriteGuard<'_, T>|
        write_taken(lock, *handle) && #[trigger] call_ensures(
            write_access::<T>,
            (handle,),
            access,
        )
}

/// Waits for shared access to `lock`.
///
/// A poisoned lock is taken over. A lock is poisoned when a thread panics
/// while it holds exclusive access, and nothing in this crate can panic
/// while it holds a guard: what lies behind the lock is whole.
pub(crate) fn lock_read<T>(lock: &RwLock<T>) -> (guard: RwLockReadGuard<'_, T>)
    ensures
        read_taken(lock, guard),
{
    match try_read(lock) {
        Ok(guard) => guard,
        Err(poisoned) => take_over(poisoned),
    }
}

/// Waits for exclusive access to `lock`.
///
/// A poisoned lock is taken over, as by [`lock_read`].
pub(crate) fn lock_write<T>(lock: &RwLock<T>) -> (guard: RwLockWriteGuard<'_, T>)
    ensures
        write_taken(lock, guard),
{
    match try_write(lock) {
        Ok(guard) => guard,
        Err(poisoned) => take_over(poisoned),
    }
}

} // verus!
