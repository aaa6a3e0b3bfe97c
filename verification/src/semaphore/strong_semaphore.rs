//! The strong semaphore: up to as many holders as it has permits, and
//! waiting callers are let in strictly in the order in which they came.

use vstd::prelude::*;
use std::sync::{Arc, Condvar, Mutex, MutexGuard};
use crate::semaphore::binary_semaphore::BinaryFlag;
use crate::semaphore::fair_queue::FairQueue;
use crate::semaphore::sync::{
    flag_at_creation, flag_mut, guarded_queue, lock, new_condvar, new_flag_mutex,
    new_queue_mutex, notify_one, queue_at_creation, queue_mut, wait_while_not_granted,
};

verus! {

/// The wake handle of one waiting caller: a condition variable that only
/// this caller sleeps on, and a flag that the release that wakes the caller
/// sets.  The flag tells that release from a wake-up without cause.  The
/// caller sleeps with the lock on the queue given up, so the condition
/// variable goes with that lock; the lock around the flag only makes the flag
/// shareable, and is taken after the lock on the queue, never before.
pub struct WakeHandle {
    fired: Mutex<BinaryFlag>,
    cond: Condvar,
}

impl WakeHandle {
    /// Whether the flag was set when the handle was made.
    pub closed spec fn starts_fired(&self) -> bool {
        flag_at_creation(self.fired)
    }

    /// A handle whose flag is not set.
    fn new() -> (handle: Self)
        ensures
            !handle.starts_fired(),
    {
        WakeHandle { fired: new_flag_mutex(BinaryFlag::locked()), cond: new_condvar() }
    }

    /// Whether a release has set the flag.
    fn is_fired(&self) -> bool {
        let mut guard = lock(&self.fired);
        let flag = flag_mut(&mut guard);
        flag.is_available()
    }

    /// Sets the flag and wakes the owner.  The releasing thread calls this
    /// while it holds the lock on the queue, so the owner is either asleep or
    /// has not begun to wait, and cannot miss it.
    fn fire(&self) {
        let mut guard = lock(&self.fired);
        let flag = flag_mut(&mut guard);
        flag.release();
        notify_one(&self.cond);
    }
}

/// A fair counting semaphore.  The count and the queue of waiting callers
/// sit behind one lock, so whether a caller may go on at once and where it
/// stands in the queue are decided together.  Each waiting caller sleeps on
/// a wake handle of its own.  A release adds a permit and wakes the caller
/// that waited longest; that caller looks at the count again under the lock
/// and takes the permit.
pub struct StrongSemaphore {
    state: Mutex<FairQueue<Arc<WakeHandle>>>,
}

impl StrongSemaphore {
    /// The permits that the semaphore was made with.
    pub closed spec fn initial_permits(&self) -> nat {
        queue_at_creation(self.state).permits
    }

    /// The number of callers that waited, or were woken and had not resumed,
    /// when the semaphore was made.
    pub closed spec fn initial_waiters(&self) -> nat {
        queue_at_creation(self.state).waiting.len() + queue_at_creation(self.state).woken
    }

    /// A semaphore with `count` permits and nobody waiting.  With no permit,
    /// the first `acquire` blocks until a `release` arrives.
    pub fn new(count: usize) -> (semaphore: Self)
        ensures
            semaphore.initial_permits() == count,
            semaphore.initial_waiters() == 0,
    {
        StrongSemaphore { state: new_queue_mutex(FairQueue::new(count)) }
    }

    /// Blocks until a permit is granted, and takes it.  A caller that finds
    /// a permit and nobody waiting goes on at once.  Any other caller leaves
    /// its wake handle at the end of the queue and sleeps on it; it goes on
    /// when a release has woken it and it has found its permit under the
    /// lock, and sleeps again after any other wake-up.
    pub fn acquire(&self) {
        let mut guard = lock(&self.state);
        match join(&mut guard) {
            None => {},
            Some(waiter) => {
                let _resumed = wait_while_not_granted(&waiter.cond, &waiter, guard);
            },
        }
    }

    /// Gives a permit back: the count grows by one.  While callers wait, the
    /// one that waited longest is taken from the queue and woken, and nobody
    /// else.  Never blocks on anything but the locks themselves.
    pub fn release(&self) {
        let mut guard = lock(&self.state);
        match pass_on(&mut guard) {
            None => {},
            Some(waiter) => {
                waiter.fire();
            },
        }
    }
}

/// What `acquire` does first under the lock.  While nobody waits and a permit
/// is left beyond those kept for woken callers, it takes the permit;
/// otherwise it makes a wake handle, not fired, and leaves it at the end of
/// the queue.
fn join(
    guard: &mut MutexGuard<FairQueue<Arc<WakeHandle>>>,
) -> (handle: Option<Arc<WakeHandle>>)
    ensures
        handle is None <==> guarded_queue(*old(guard)).admits(),
        match handle {
            None => guarded_queue(*final(guard)) == guarded_queue(*old(guard)).after_acquire(),
            Some(waiter) => {
                &&& !waiter.starts_fired()
                &&& guarded_queue(*final(guard)) == guarded_queue(*old(guard)).after_enqueue(
                    waiter,
                )
            },
        },
        guarded_queue(*final(guard)).wf(),
        guarded_queue(*old(guard)).permits <= usize::MAX,
        guarded_queue(*final(guard)).permits <= usize::MAX,
{
    let queue = queue_mut(guard);
    proof {
        queue.lemma_counts_fit();
    }
    if queue.try_acquire() {
        None
    } else {
        let waiter = Arc::new(WakeHandle::new());
        queue.enqueue(Arc::clone(&waiter));
        Some(waiter)
    }
}

/// The step of a waiting caller, made under the lock each time it wakes,
/// given whether its handle was fired.  A caller whose handle was not fired
/// keeps waiting and changes nothing.  A caller whose handle was fired looks
/// at the count again: it takes its permit and goes on, or keeps waiting if
/// no permit is there for it.  Returns whether the caller keeps waiting.
fn waiter_step(queue: &mut FairQueue<Arc<WakeHandle>>, fired: bool) -> (keeps: bool)
    ensures
        keeps == !(fired && old(queue)@.can_resume()),
        final(queue)@ == (if fired {
            old(queue)@.after_resume()
        } else {
            old(queue)@
        }),
{
    if fired {
        !queue.resume()
    } else {
        true
    }
}

/// The condition on which a waiting caller sleeps: its step, with the flag
/// of its own handle.  Whatever the flag says, the caller goes on only from
/// a state in which a permit was there for it, and with that permit taken.
pub(crate) fn keeps_waiting(
    queue: &mut FairQueue<Arc<WakeHandle>>,
    waiter: &WakeHandle,
) -> (keeps: bool)
    ensures
        !keeps ==> old(queue)@.can_resume(),
        final(queue)@ == (if keeps {
            old(queue)@
        } else {
            old(queue)@.after_resume()
        }),
{
    let fired = waiter.is_fired();
    waiter_step(queue, fired)
}

/// What `release` does under the lock: the count grows by one, and the
/// caller that waited longest, if any, leaves the queue; its wake handle is
/// returned.
fn pass_on(
    guard: &mut MutexGuard<FairQueue<Arc<WakeHandle>>>,
) -> (woken: Option<Arc<WakeHandle>>)
    ensures
        woken == guarded_queue(*old(guard)).next_woken(),
        guarded_queue(*final(guard)) == guarded_queue(*old(guard)).after_release(),
        guarded_queue(*final(guard)).wf(),
        guarded_queue(*old(guard)).permits <= usize::MAX,
        guarded_queue(*final(guard)).permits <= usize::MAX,
{
    let queue = queue_mut(guard);
    proof {
        queue.lemma_counts_fit();
    }
    queue.release()
}

} // verus!
