//! The binary semaphore: one permit, held by at most one caller at a time.

use vstd::prelude::*;
use std::sync::{Condvar, Mutex, MutexGuard};
use crate::semaphore::callers::{
    all_outside, lemma_occupancy_all_outside, lemma_occupancy_update, lemma_occupancy_zero,
    occupancy, outside_releases, Move,
};
use crate::semaphore::sync::{
    flag_at_creation, flag_mut, guarded_flag, lock, new_condvar, new_flag_mutex, notify_one,
    wait_while_locked,
};

verus! {

/// Whether a caller that asks now is let in: only while the permit is there.
pub open spec fn admits(available: bool) -> bool {
    available
}

/// The flag after an attempt to acquire: the permit is gone either way,
/// taken just now or still held by an earlier caller.
pub open spec fn after_acquire(available: bool) -> bool {
    false
}

/// The flag after a release: the permit is there, whatever was before.
pub open spec fn after_release(available: bool) -> bool {
    true
}

/// The state of a binary semaphore: `true` while it is unlocked.
pub struct BinaryFlag {
    available: bool,
}

impl View for BinaryFlag {
    type V = bool;

    closed spec fn view(&self) -> bool {
        self.available
    }
}

impl BinaryFlag {
    /// An unlocked flag.
    pub fn new() -> (flag: Self)
        ensures
            flag@,
    {
        BinaryFlag { available: true }
    }

    /// A locked flag.
    pub fn locked() -> (flag: Self)
        ensures
            !flag@,
    {
        BinaryFlag { available: false }
    }

    /// Whether the permit is there.
    pub fn is_available(&self) -> (available: bool)
        ensures
            available == self@,
    {
        self.available
    }

    /// Whether a caller has to wait.
    pub fn is_locked(&self) -> (locked: bool)
        ensures
            locked == !admits(self@),
    {
        !self.available
    }

    /// Takes the permit if it is there.  Returns whether the caller was let
    /// in; a caller that was not has to wait and ask again.
    pub fn try_acquire(&mut self) -> (admitted: bool)
        ensures
            admitted == admits(old(self)@),
            final(self)@ == after_acquire(old(self)@),
    {
        let admitted = self.available;
        self.available = false;
        admitted
    }

    /// Puts the permit back.  No owner is tracked: a release without an
    /// acquire before it is allowed, and a second one in a row changes nothing.
    pub fn release(&mut self)
        ensures
            final(self)@ == after_release(old(self)@),
    {
        self.available = true;
    }
}

/// Releases do not add up: a release after a release leaves the flag as the
/// first one did, so after both one caller is let in and the next has to wait.
pub proof fn lemma_release_is_idempotent(available: bool)
    ensures
        after_release(after_release(available)) == after_release(available),
        admits(after_release(available)),
        !admits(after_acquire(after_release(after_release(available)))),
{
}

/// A group of callers around one flag.
pub struct BinaryCrowd {
    pub available: bool,
    pub inside: Seq<bool>,
}

impl BinaryCrowd {
    /// `callers` callers, all outside, around an unlocked flag.
    pub open spec fn start(callers: nat) -> BinaryCrowd {
        BinaryCrowd { available: true, inside: all_outside(callers) }
    }

    /// The callers that are inside.
    pub open spec fn holders(self) -> nat {
        occupancy(self.inside)
    }

    /// The permit, counted: one while the flag is unlocked.
    pub open spec fn spare(self) -> nat {
        if self.available {
            1
        } else {
            0
        }
    }

    /// The crowd after one move.  A caller that is outside tries to acquire,
    /// and is inside afterwards if it was let in; a caller that is inside
    /// releases and is outside again; a release from outside the group only
    /// changes the flag.
    pub open spec fn step(self, next: Move) -> BinaryCrowd {
        match next {
            Move::Release => BinaryCrowd { available: after_release(self.available), ..self },
            Move::Caller(who) => if !(0 <= who < self.inside.len()) {
                self
            } else if self.inside[who] {
                BinaryCrowd {
                    available: after_release(self.available),
                    inside: self.inside.update(who, false),
                }
            } else {
                BinaryCrowd {
                    available: after_acquire(self.available),
                    inside: self.inside.update(who, admits(self.available)),
                }
            },
        }
    }

    /// The crowd after the moves of `schedule`, in their order.
    pub open spec fn run(self, schedule: Seq<Move>) -> BinaryCrowd
        decreases schedule.len(),
    {
        if schedule.len() == 0 {
            self
        } else {
            self.run(schedule.drop_last()).step(schedule.last())
        }
    }
}

/// However the moves interleave, the callers inside, together with the
/// permit if it is there, are at most one more than the releases that came
/// from outside; without such releases they are exactly one.
pub proof fn lemma_permit_is_single(callers: nat, schedule: Seq<Move>)
    ensures
        ({
            let crowd = BinaryCrowd::start(callers).run(schedule);
            &&& crowd.inside.len() == callers
            &&& crowd.holders() + crowd.spare() <= 1 + outside_releases(schedule)
            &&& outside_releases(schedule) == 0 ==> crowd.holders() + crowd.spare() == 1
        }),
    decreases schedule.len(),
{
    if schedule.len() == 0 {
        lemma_occupancy_all_outside(callers);
    } else {
        lemma_permit_is_single(callers, schedule.drop_last());
        let before = BinaryCrowd::start(callers).run(schedule.drop_last());
        let crowd = before.step(schedule.last());
        match schedule.last() {
            Move::Release => {},
            Move::Caller(who) => {
                if 0 <= who < callers {
                    lemma_occupancy_update(before.inside, who, crowd.inside[who]);
                }
            },
        }
    }
}

/// Mutual exclusion: while every release comes from the caller that was let
/// in, at most one caller is inside, and once all of them are outside again
/// the flag is unlocked.
pub proof fn lemma_mutual_exclusion(callers: nat, schedule: Seq<Move>)
    requires
        outside_releases(schedule) == 0,
    ensures
        ({
            let crowd = BinaryCrowd::start(callers).run(schedule);
            &&& crowd.holders() <= 1
            &&& crowd.available <==> crowd.holders() == 0
            &&& (forall|who: int| 0 <= who < callers ==> !crowd.inside[who]) ==> crowd.available
        }),
{
    lemma_permit_is_single(callers, schedule);
    lemma_occupancy_zero(BinaryCrowd::start(callers).run(schedule).inside);
}

/// A lock that any thread may open.  `acquire` blocks while it is locked and
/// locks it; `release` unlocks it and wakes one waiting thread.
pub struct BinarySemaphore {
    flag: Mutex<BinaryFlag>,
    cond: Condvar,
}

impl BinarySemaphore {
    /// Whether the semaphore was unlocked when it was made.
    pub closed spec fn starts_available(&self) -> bool {
        flag_at_creation(self.flag)
    }

    /// An unlocked semaphore.
    pub fn new() -> (semaphore: Self)
        ensures
            semaphore.starts_available(),
    {
        BinarySemaphore { flag: new_flag_mutex(BinaryFlag::new()), cond: new_condvar() }
    }

    /// Blocks until the semaphore is unlocked, then locks it.  A thread that
    /// is woken tests the flag again before it goes on, so a wake-up without
    /// a release lets nobody in.
    pub fn acquire(&self) {
        let guard = lock(&self.flag);
        let mut guard = wait_while_locked(&self.cond, guard);
        take_permit(&mut guard);
    }

    /// Unlocks the semaphore and wakes one waiting thread, if there is one.
    /// Never blocks on anything but the lock itself.
    pub fn release(&self) {
        let mut guard = lock(&self.flag);
        return_permit(&mut guard);
        notify_one(&self.cond);
    }
}

/// What `acquire` does under the lock, once the flag is unlocked: it locks
/// the flag.
fn take_permit(guard: &mut MutexGuard<BinaryFlag>)
    requires
        admits(guarded_flag(*old(guard))),
    ensures
        guarded_flag(*final(guard)) == after_acquire(guarded_flag(*old(guard))),
{
    let flag = flag_mut(guard);
    let admitted = flag.try_acquire();
    assert(admitted);
}

/// What `release` does under the lock: it unlocks the flag.
fn return_permit(guard: &mut MutexGuard<BinaryFlag>)
    ensures
        guarded_flag(*final(guard)) == after_release(guarded_flag(*old(guard))),
{
    let flag = flag_mut(guard);
    flag.release();
}

} // verus!
