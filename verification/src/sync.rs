//! The pieces of `std::sync` that the library stands on: the lock that holds
//! what a thread reaches only through a guard, the condition to sleep on, and
//! the shared pointer whose holders can be counted.
//!
//! What these hold changes under other threads' hands, so little is stated of
//! what they return.

use vstd::prelude::*;
use std::sync::{Arc, Condvar, Mutex, MutexGuard, PoisonError};

verus! {

#[verifier::external_type_specification]
#[verifier::external_body]
#[verifier::reject_recursive_types(T)]
pub struct ExMutex<T: ?Sized>(Mutex<T>);

#[verifier::external_type_specification]
#[verifier::external_body]
#[verifier::reject_recursive_types(T)]
pub struct ExMutexGuard<'a, T: ?Sized + 'a>(MutexGuard<'a, T>);

#[verifier::external_type_specification]
#[verifier::external_body]
#[verifier::reject_recursive_types(T)]
pub struct ExPoisonError<T>(PoisonError<T>);

#[verifier::external_type_specification]
#[verifier::external_body]
pub struct ExCondvar(Condvar);

/// `Mutex::new`: a lock that holds `value`.
#[verifier::external_body]
pub(crate) fn mutex<T>(value: T) -> (made: Mutex<T>)
{
    Mutex::new(value)
}

/// `Mutex::lock`: waits until no other guard of the lock is alive and gives
/// the one guard. The guard comes inside an error if a thread panicked while
/// it held one. A thread that holds the guard itself must not ask again: the
/// callers here ask once per guard and let it go before they ask again.
#[verifier::external_body]
pub(crate) fn enter<'a, T>(mutex: &'a Mutex<T>) -> (guard: Result<
    MutexGuard<'a, T>,
    PoisonError<MutexGuard<'a, T>>,
>)
{
    mutex.lock()
}

/// `PoisonError::into_inner`: the guard that the error carries.
#[verifier::external_body]
pub(crate) fn recover<'a, T>(poisoned: PoisonError<MutexGuard<'a, T>>) -> (guard: MutexGuard<'a, T>)
{
    poisoned.into_inner()
}

/// The guard's `Deref`: what the lock holds, to read.
#[verifier::external_body]
pub(crate) fn peek<'g, 'a, T>(guard: &'g MutexGuard<'a, T>) -> (value: &'g T)
{
    &**guard
}

/// The guard's `DerefMut`: what the lock holds, to change.
#[verifier::external_body]
pub(crate) fn reach<'g, 'a, T>(guard: &'g mut MutexGuard<'a, T>) -> (value: &'g mut T)
    no_unwind
{
    &mut **guard
}

/// `Condvar::new`: a condition that nobody sleeps on.
#[verifier::external_body]
pub(crate) fn condvar() -> (made: Condvar)
{
    Condvar::new()
}

/// `Condvar::notify_one`: wakes one thread that sleeps on the condition, if
/// there is one.
#[verifier::external_body]
pub(crate) fn notify(cvar: &Condvar)
    opens_invariants none
    no_unwind
{
    cvar.notify_one()
}

/// `Condvar::wait`: gives up the guard, sleeps until notified or for no
/// reason, and takes the guard again. The guard comes inside an error if a
/// thread panicked while it held one. A condition serves one lock only: the
/// caller here keeps the two side by side in one value.
#[verifier::external_body]
pub(crate) fn sleep<'a, T>(cvar: &Condvar, guard: MutexGuard<'a, T>) -> (again: Result<
    MutexGuard<'a, T>,
    PoisonError<MutexGuard<'a, T>>,
>)
{
    cvar.wait(guard)
}

/// `Arc::strong_count`: the number of pointers to the shared value at this
/// moment. Other threads may change it at once.
#[verifier::external_body]
pub(crate) fn holders<T>(shared: &Arc<T>) -> (count: usize)
    opens_invariants none
    no_unwind
{
    Arc::strong_count(shared)
}

/// `Arc::clone`: one more pointer to the same shared value.
#[verifier::external_body]
pub(crate) fn share<T>(shared: &Arc<T>) -> (again: Arc<T>)
    ensures
        again == *shared,
{
    Arc::clone(shared)
}

} // verus!
