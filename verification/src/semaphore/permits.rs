//! The permit count of the counting semaphores, and what holds of every
//! group of callers that shares one.

use vstd::prelude::*;
use std::sync::MutexGuard;
use crate::semaphore::sync::{guarded_permits, permits_mut};
use crate::semaphore::callers::{
    all_outside, lemma_occupancy_all_outside, lemma_occupancy_update, lemma_occupancy_zero,
    occupancy, outside_releases, Move,
};

verus! {

/// Whether a caller that asks now is let in: only while a permit is left.
pub open spec fn admits(permits: nat) -> bool {
    permits > 0
}

/// The count after an attempt to acquire: one less if a permit was left,
/// unchanged if the caller has to wait.
pub open spec fn after_acquire(permits: nat) -> nat {
    if permits > 0 {
        (permits - 1) as nat
    } else {
        permits
    }
}

/// The count after a release: one more.  The count is a machine word, and a
/// release that finds it at the largest value leaves it there.
pub open spec fn after_release(permits: nat) -> nat {
    if permits < usize::MAX {
        permits + 1
    } else {
        permits
    }
}

/// The count after `times` releases in a row.
pub open spec fn after_releases(permits: nat, times: nat) -> nat
    decreases times,
{
    if times == 0 {
        permits
    } else {
        after_release(after_releases(permits, (times - 1) as nat))
    }
}

/// The count after `times` attempts to acquire in a row.
pub open spec fn after_acquires(permits: nat, times: nat) -> nat
    decreases times,
{
    if times == 0 {
        permits
    } else {
        after_acquire(after_acquires(permits, (times - 1) as nat))
    }
}

/// The permits that a counting semaphore has left.
pub struct PermitCount {
    permits: usize,
}

impl View for PermitCount {
    type V = nat;

    closed spec fn view(&self) -> nat {
        self.permits as nat
    }
}

impl PermitCount {
    /// A count of `permits`.
    pub fn new(permits: usize) -> (count: Self)
        ensures
            count@ == permits,
    {
        PermitCount { permits }
    }

    /// The count fits its machine word.
    pub proof fn lemma_count_fits(self)
        ensures
            self@ <= usize::MAX,
    {
    }

    /// The permits that are left.
    pub fn available(&self) -> (permits: usize)
        ensures
            permits == self@,
    {
        self.permits
    }

    /// Whether a caller has to wait.
    pub fn is_exhausted(&self) -> (exhausted: bool)
        ensures
            exhausted == !admits(self@),
    {
        self.permits == 0
    }

    /// Takes a permit if one is left.  Returns whether the caller was let in;
    /// a caller that was not has to wait and ask again.
    pub fn try_acquire(&mut self) -> (admitted: bool)
        ensures
            admitted == admits(old(self)@),
            final(self)@ == after_acquire(old(self)@),
            final(self)@ <= usize::MAX,
    {
        if self.permits > 0 {
            self.permits = self.permits - 1;
            true
        } else {
            false
        }
    }

    /// Puts a permit back.  Releases are not matched against acquires: each
    /// one adds a permit, also beyond the number the count started with.
    pub fn release(&mut self)
        ensures
            final(self)@ == after_release(old(self)@),
            final(self)@ <= usize::MAX,
    {
        if self.permits < usize::MAX {
            self.permits = self.permits + 1;
        }
    }
}

/// What an acquire does under the lock, once a permit is left: it takes one.
pub(crate) fn take_permit(guard: &mut MutexGuard<PermitCount>)
    requires
        admits(guarded_permits(*old(guard))),
    ensures
        guarded_permits(*final(guard)) == after_acquire(guarded_permits(*old(guard))),
        guarded_permits(*old(guard)) <= usize::MAX,
        guarded_permits(*final(guard)) <= usize::MAX,
{
    let count = permits_mut(guard);
    proof {
        count.lemma_count_fits();
    }
    let admitted = count.try_acquire();
    assert(admitted);
}

/// What a release does under the lock: it adds a permit.
pub(crate) fn return_permit(guard: &mut MutexGuard<PermitCount>)
    ensures
        guarded_permits(*final(guard)) == after_release(guarded_permits(*old(guard))),
        guarded_permits(*old(guard)) <= usize::MAX,
        guarded_permits(*final(guard)) <= usize::MAX,
{
    let count = permits_mut(guard);
    proof {
        count.lemma_count_fits();
    }
    count.release();
}

/// Permits add up: after `times` releases a count that was at
/// `permits` lets exactly `permits + times` callers in, one after another,
/// and makes the next one wait.
pub proof fn lemma_permits_accumulate(permits: nat, times: nat)
    requires
        permits + times <= usize::MAX,
    ensures
        after_releases(permits, times) == permits + times,
        forall|earlier: nat|
            earlier < permits + times ==> admits(
                #[trigger] after_acquires(after_releases(permits, times), earlier),
            ),
        !admits(after_acquires(after_releases(permits, times), permits + times)),
{
    lemma_releases_add(permits, times);
    let total = permits + times;
    assert forall|earlier: nat| earlier < total implies admits(
        #[trigger] after_acquires(total, earlier),
    ) by {
        lemma_acquires_subtract(total, earlier);
    }
    lemma_acquires_subtract(total, total);
}

/// `times` releases add `times` permits as long as the count fits its word.
pub proof fn lemma_releases_add(permits: nat, times: nat)
    requires
        permits + times <= usize::MAX,
    ensures
        after_releases(permits, times) == permits + times,
    decreases times,
{
    if times > 0 {
        lemma_releases_add(permits, (times - 1) as nat);
    }
}

/// `times` attempts take `times` permits, or all of them if there are fewer.
pub proof fn lemma_acquires_subtract(permits: nat, times: nat)
    ensures
        after_acquires(permits, times) == if times <= permits {
            permits - times
        } else {
            0
        },
    decreases times,
{
    if times > 0 {
        lemma_acquires_subtract(permits, (times - 1) as nat);
    }
}

/// A group of callers around one permit count.
pub struct Crowd {
    pub permits: nat,
    pub inside: Seq<bool>,
}

impl Crowd {
    /// `callers` callers, all outside, around a count of `permits`.
    pub open spec fn start(permits: nat, callers: nat) -> Crowd {
        Crowd { permits, inside: all_outside(callers) }
    }

    /// The callers that are inside.
    pub open spec fn holders(self) -> nat {
        occupancy(self.inside)
    }

    /// The crowd after one move.  A caller that is outside tries to acquire,
    /// and is inside afterwards if it was let in; a caller that is inside
    /// releases and is outside again; a release from outside the group only
    /// changes the count.
    pub open spec fn step(self, next: Move) -> Crowd {
        match next {
            Move::Release => Crowd { permits: after_release(self.permits), ..self },
            Move::Caller(who) => if !(0 <= who < self.inside.len()) {
                self
            } else if self.inside[who] {
                Crowd {
                    permits: after_release(self.permits),
                    inside: self.inside.update(who, false),
                }
            } else {
                Crowd {
                    permits: after_acquire(self.permits),
                    inside: self.inside.update(who, admits(self.permits)),
                }
            },
        }
    }

    /// The crowd after the moves of `schedule`, in their order.
    pub open spec fn run(self, schedule: Seq<Move>) -> Crowd
        decreases schedule.len(),
    {
        if schedule.len() == 0 {
            self
        } else {
            self.run(schedule.drop_last()).step(schedule.last())
        }
    }
}

/// Permits are conserved: however the moves interleave, the callers inside
/// and the permits left add up to the permits the count started with and
/// the releases that came from outside, as long as that sum fits the machine
/// word of the count; they never add up to more.
pub proof fn lemma_permits_are_conserved(capacity: nat, callers: nat, schedule: Seq<Move>)
    ensures
        ({
            let crowd = Crowd::start(capacity, callers).run(schedule);
            &&& crowd.inside.len() == callers
            &&& crowd.holders() + crowd.permits <= capacity + outside_releases(schedule)
            &&& capacity + outside_releases(schedule) <= usize::MAX ==> crowd.holders()
                + crowd.permits == capacity + outside_releases(schedule)
        }),
    decreases schedule.len(),
{
    if schedule.len() == 0 {
        lemma_occupancy_all_outside(callers);
    } else {
        lemma_permits_are_conserved(capacity, callers, schedule.drop_last());
        let before = Crowd::start(capacity, callers).run(schedule.drop_last());
        let crowd = before.step(schedule.last());
        match schedule.last() {
            Move::Release => {},
            Move::Caller(who) => {
                if 0 <= who < callers {
                    lemma_occupancy_update(before.inside, who, crowd.inside[who]);
                }
            },
        }
    }
}

/// Bounded concurrency: while every release comes from a caller that was let
/// in, never more callers are inside than the count started with, and once
/// all of them are outside again every permit is back.
pub proof fn lemma_bounded_concurrency(capacity: nat, callers: nat, schedule: Seq<Move>)
    requires
        capacity <= usize::MAX,
        outside_releases(schedule) == 0,
    ensures
        ({
            let crowd = Crowd::start(capacity, callers).run(schedule);
            &&& crowd.holders() <= capacity
            &&& crowd.holders() + crowd.permits == capacity
            &&& (forall|who: int| 0 <= who < callers ==> !crowd.inside[who]) ==> crowd.permits
                == capacity
        }),
{
    lemma_permits_are_conserved(capacity, callers, schedule);
    lemma_occupancy_zero(Crowd::start(capacity, callers).run(schedule).inside);
}

/// A count that starts at zero lets nobody in before a release arrives from
/// outside: never more callers are inside than such releases have happened.
pub proof fn lemma_zero_permits_admit_nobody(callers: nat, schedule: Seq<Move>)
    ensures
        ({
            let crowd = Crowd::start(0, callers).run(schedule);
            &&& crowd.holders() <= outside_releases(schedule)
            &&& outside_releases(schedule) == 0 ==> forall|who: int|
                0 <= who < callers ==> !crowd.inside[who]
        }),
{
    lemma_permits_are_conserved(0, callers, schedule);
    lemma_occupancy_zero(Crowd::start(0, callers).run(schedule).inside);
}

} // verus!
