//! The part of `std::sync` that the semaphores stand on.
//!
//! Nothing in this file is proved: each function holds one call into
//! `std::sync`, and its contract says what the documentation of that call
//! promises.  A lock that was poisoned is fatal here: the call that meets it
//! panics.  A lock is poisoned only when a thread panics while it holds the
//! guard; the semaphores never hand a guard out, and none of their functions
//! panics while it holds one.

use vstd::prelude::*;
use std::sync::{Arc, Condvar, Mutex, MutexGuard};
use crate::semaphore::binary_semaphore::BinaryFlag;
use crate::semaphore::fair_queue::{FairQueue, FairState};
use crate::semaphore::permits::PermitCount;
use crate::semaphore::strong_semaphore::{keeps_waiting, WakeHandle};

verus! {

/// `std::sync::Mutex`, opaque to the verifier.
#[verifier::external_type_specification]
#[verifier::external_body]
#[verifier::reject_recursive_types(T)]
pub struct ExMutex<T: ?Sized>(std::sync::Mutex<T>);

/// `std::sync::MutexGuard`, opaque to the verifier.
#[verifier::external_type_specification]
#[verifier::external_body]
#[verifier::reject_recursive_types(T)]
pub struct ExMutexGuard<'a, T: ?Sized + 'a>(std::sync::MutexGuard<'a, T>);

/// `std::sync::Condvar`, opaque to the verifier.
#[verifier::external_type_specification]
#[verifier::external_body]
pub struct ExCondvar(std::sync::Condvar);

/// The flag that a mutex was created around.
pub uninterp spec fn flag_at_creation(mutex: Mutex<BinaryFlag>) -> bool;

/// The flag that a guard gives access to.  While the guard lives no other
/// thread reads or writes the flag, so it changes only through the guard.
pub uninterp spec fn guarded_flag(guard: MutexGuard<BinaryFlag>) -> bool;

/// The permits that a mutex was created around.
pub uninterp spec fn permits_at_creation(mutex: Mutex<PermitCount>) -> nat;

/// The permits that a guard gives access to.
pub uninterp spec fn guarded_permits(guard: MutexGuard<PermitCount>) -> nat;

/// The queue that a mutex was created around.
pub uninterp spec fn queue_at_creation(
    mutex: Mutex<FairQueue<Arc<WakeHandle>>>,
) -> FairState<Arc<WakeHandle>>;

/// The queue that a guard gives access to.
pub uninterp spec fn guarded_queue(
    guard: MutexGuard<FairQueue<Arc<WakeHandle>>>,
) -> FairState<Arc<WakeHandle>>;

/// `Mutex::new` around a flag: the mutex starts out holding `flag`.
#[verifier::external_body]
pub(crate) fn new_flag_mutex(flag: BinaryFlag) -> (mutex: Mutex<BinaryFlag>)
    ensures
        flag_at_creation(mutex) == flag@,
{
    Mutex::new(flag)
}

/// `Mutex::new` around a permit count: the mutex starts out holding `count`.
#[verifier::external_body]
pub(crate) fn new_permits_mutex(count: PermitCount) -> (mutex: Mutex<PermitCount>)
    ensures
        permits_at_creation(mutex) == count@,
{
    Mutex::new(count)
}

/// `Mutex::new` around a queue: the mutex starts out holding `queue`.
#[verifier::external_body]
pub(crate) fn new_queue_mutex(
    queue: FairQueue<Arc<WakeHandle>>,
) -> (mutex: Mutex<FairQueue<Arc<WakeHandle>>>)
    ensures
        queue_at_creation(mutex) == queue@,
{
    Mutex::new(queue)
}

/// `Condvar::new`.
#[verifier::external_body]
pub(crate) fn new_condvar() -> Condvar {
    Condvar::new()
}

/// `Mutex::lock`: blocks until the lock is free and returns its guard.  What
/// the guard holds is whatever the last holder left: nothing is claimed of it.
#[verifier::external_body]
pub(crate) fn lock<'a, T>(mutex: &'a Mutex<T>) -> MutexGuard<'a, T> {
    mutex.lock().unwrap()
}

/// `Condvar::wait_while` with the condition "the flag is locked": gives the
/// lock up, sleeps, and on every wake-up takes the lock again and tests the
/// flag; it returns the guard only once the flag is available.
#[verifier::external_body]
pub(crate) fn wait_while_locked<'a>(
    cond: &Condvar,
    guard: MutexGuard<'a, BinaryFlag>,
) -> (woken: MutexGuard<'a, BinaryFlag>)
    ensures
        guarded_flag(woken),
{
    cond.wait_while(guard, |flag| flag.is_locked()).unwrap()
}

/// `DerefMut::deref_mut` on a guard: the flag behind the guard, for as long
/// as the borrow lasts; what the borrower leaves is what the guard holds.
#[verifier::external_body]
pub(crate) fn flag_mut<'g, 'a>(
    guard: &'g mut MutexGuard<'a, BinaryFlag>,
) -> (flag: &'g mut BinaryFlag)
    ensures
        flag@ == guarded_flag(*old(guard)),
        guarded_flag(*final(guard)) == final(flag)@,
{
    &mut **guard
}

/// `Condvar::wait_while` with the condition "no permit is left": gives the
/// lock up, sleeps, and on every wake-up takes the lock again and tests the
/// count; it returns the guard only once a permit is left.
#[verifier::external_body]
pub(crate) fn wait_while_exhausted<'a>(
    cond: &Condvar,
    guard: MutexGuard<'a, PermitCount>,
) -> (woken: MutexGuard<'a, PermitCount>)
    ensures
        guarded_permits(woken) > 0,
{
    cond.wait_while(guard, |count| count.is_exhausted()).unwrap()
}

/// `DerefMut::deref_mut` on a guard: the count behind the guard, for as long
/// as the borrow lasts; what the borrower leaves is what the guard holds.
#[verifier::external_body]
pub(crate) fn permits_mut<'g, 'a>(
    guard: &'g mut MutexGuard<'a, PermitCount>,
) -> (count: &'g mut PermitCount)
    ensures
        count@ == guarded_permits(*old(guard)),
        guarded_permits(*final(guard)) == final(count)@,
{
    &mut **guard
}

/// `DerefMut::deref_mut` on a guard: the queue behind the guard, for as long
/// as the borrow lasts; what the borrower leaves is what the guard holds.
#[verifier::external_body]
pub(crate) fn queue_mut<'g, 'a>(
    guard: &'g mut MutexGuard<'a, FairQueue<Arc<WakeHandle>>>,
) -> (queue: &'g mut FairQueue<Arc<WakeHandle>>)
    ensures
        queue@ == guarded_queue(*old(guard)),
        guarded_queue(*final(guard)) == final(queue)@,
{
    &mut **guard
}

/// `Condvar::wait_while` on a waiting caller's own condition variable, with
/// the caller's step as the condition: gives the lock up, sleeps, and on
/// every wake-up takes the lock again and lets the caller make its step; it
/// returns the guard only once that step let the caller go on.  The guard
/// then holds the queue as that step left it: the caller's permit is taken
/// from a count that fitted its machine word, so the count is below the
/// largest value.
#[verifier::external_body]
pub(crate) fn wait_while_not_granted<'a>(
    cond: &Condvar,
    waiter: &WakeHandle,
    guard: MutexGuard<'a, FairQueue<Arc<WakeHandle>>>,
) -> (resumed: MutexGuard<'a, FairQueue<Arc<WakeHandle>>>)
    ensures
        guarded_queue(resumed).permits < usize::MAX,
{
    cond.wait_while(guard, |queue| keeps_waiting(queue, waiter)).unwrap()
}

/// `Condvar::notify_one`: wakes at most one thread that waits on `cond`.
#[verifier::external_body]
pub(crate) fn notify_one(cond: &Condvar) {
    cond.notify_one()
}

/// `Condvar::notify_all`: wakes every thread that waits on `cond`.
#[verifier::external_body]
pub(crate) fn notify_all(cond: &Condvar) {
    cond.notify_all()
}

} // verus!
