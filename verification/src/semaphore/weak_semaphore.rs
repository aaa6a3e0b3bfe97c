//! The weak counting semaphore: up to as many holders as it has permits, and
//! no promise on the order in which waiting callers are let in.

use vstd::prelude::*;
use std::sync::{Condvar, Mutex};
use crate::semaphore::permits::{return_permit, take_permit, PermitCount};
use crate::semaphore::sync::{
    lock, new_condvar, new_permits_mutex, notify_all, permits_at_creation, wait_while_exhausted,
};

verus! {

/// A counting semaphore that wakes every waiting thread on a release and
/// lets them race for the permits.
pub struct WeakSemaphore {
    count: Mutex<PermitCount>,
    cond: Condvar,
}

impl WeakSemaphore {
    /// The permits that the semaphore was made with.
    pub closed spec fn initial_permits(&self) -> nat {
        permits_at_creation(self.count)
    }

    /// A semaphore with `count` permits.  With none, the first `acquire`
    /// blocks until a `release` arrives.
    pub fn new(count: usize) -> (semaphore: Self)
        ensures
            semaphore.initial_permits() == count,
    {
        WeakSemaphore { count: new_permits_mutex(PermitCount::new(count)), cond: new_condvar() }
    }

    /// Blocks while no permit is left, then takes one.  A thread that is
    /// woken tests the count again before it goes on: of the threads that a
    /// release wakes, as many go on as there are permits, and the others
    /// sleep again.
    pub fn acquire(&self) {
        let guard = lock(&self.count);
        let mut guard = wait_while_exhausted(&self.cond, guard);
        take_permit(&mut guard);
    }

    /// Adds a permit and wakes every waiting thread.  Never blocks on
    /// anything but the lock itself.
    pub fn release(&self) {
        let mut guard = lock(&self.count);
        return_permit(&mut guard);
        notify_all(&self.cond);
    }
}

} // verus!
