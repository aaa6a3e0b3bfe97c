//! The state of the fair semaphore: a permit count, the callers that wait in
//! the order in which they came, and the number of callers that a release
//! has woken and that have not taken their permit yet.

use vstd::prelude::*;
use std::collections::VecDeque;
use crate::semaphore::callers::{
    all_outside, lemma_occupancy_all_outside, lemma_occupancy_update, lemma_occupancy_zero,
    occupancy, outside_releases, Move,
};

verus! {

/// What a fair queue holds, as the contracts see it.
pub struct FairState<H> {
    /// The permits that nobody holds.
    pub permits: nat,
    /// How many of them are kept for callers that a release has woken and
    /// that have not resumed yet.
    pub woken: nat,
    /// The wake handles of the callers that wait, the longest-waiting first.
    pub waiting: Seq<H>,
}

impl<H> FairState<H> {
    /// `permits` permits, nobody waiting and nobody woken.
    pub open spec fn start(permits: nat) -> Self {
        FairState { permits, woken: 0, waiting: Seq::empty() }
    }

    /// Every woken caller has its permit, and callers wait only while no
    /// other permit is left.
    pub open spec fn wf(self) -> bool {
        &&& self.woken <= self.permits
        &&& self.waiting.len() > 0 ==> self.permits == self.woken
    }

    /// Whether a caller that asks now is let in at once: only while nobody
    /// waits and a permit is left beyond those kept for woken callers.
    pub open spec fn admits(self) -> bool {
        self.waiting.len() == 0 && self.permits > self.woken
    }

    /// The state after an attempt to acquire: one permit less if the caller
    /// was let in at once, unchanged if it has to wait.
    pub open spec fn after_acquire(self) -> Self {
        if self.admits() {
            FairState { permits: (self.permits - 1) as nat, ..self }
        } else {
            self
        }
    }

    /// The state after a caller joined the queue, behind all that wait.
    pub open spec fn after_enqueue(self, waiter: H) -> Self {
        FairState { waiting: self.waiting.push(waiter), ..self }
    }

    /// Whether a release has an effect: the count is a machine word, and a
    /// release that finds it at the largest value changes nothing.
    pub open spec fn takes_release(self) -> bool {
        self.permits < usize::MAX
    }

    /// The caller that the next release wakes: the one that waits longest.
    pub open spec fn next_woken(self) -> Option<H> {
        if self.takes_release() && self.waiting.len() > 0 {
            Some(self.waiting.first())
        } else {
            None
        }
    }

    /// The state after a release.  The count grows by one.  While callers
    /// wait, the first of them leaves the queue and is woken, and the new
    /// permit is kept for it.
    pub open spec fn after_release(self) -> Self {
        if !self.takes_release() {
            self
        } else if self.waiting.len() > 0 {
            FairState {
                permits: self.permits + 1,
                woken: self.woken + 1,
                waiting: self.waiting.drop_first(),
            }
        } else {
            FairState { permits: self.permits + 1, ..self }
        }
    }

    /// Whether a woken caller that looks at the count again may go on: a
    /// permit is left, and one is kept for a woken caller.
    pub open spec fn can_resume(self) -> bool {
        self.permits > 0 && self.woken > 0
    }

    /// The state after a woken caller looked at the count again: it took its
    /// permit if it may go on, and changed nothing if it has to keep waiting.
    pub open spec fn after_resume(self) -> Self {
        if self.can_resume() {
            FairState {
                permits: (self.permits - 1) as nat,
                woken: (self.woken - 1) as nat,
                ..self
            }
        } else {
            self
        }
    }
}

/// The two counts of a fair queue.  They change together.
#[derive(Clone, Copy)]
struct Tally {
    permits: usize,
    woken: usize,
}

/// A permit count with a first-in, first-out queue of wake handles.  A caller
/// that finds no permit leaves its handle in the queue.  A release adds a
/// permit and wakes the owner of the first handle, who then takes the permit
/// itself.  Between the two the permit is kept for that caller: a caller that
/// arrives later is let in only if a permit is left beyond those kept.
pub struct FairQueue<H> {
    tally: Tally,
    waiting: VecDeque<H>,
}

impl<H> View for FairQueue<H> {
    type V = FairState<H>;

    closed spec fn view(&self) -> FairState<H> {
        FairState {
            permits: self.tally.permits as nat,
            woken: self.tally.woken as nat,
            waiting: self.waiting@,
        }
    }
}

impl<H> FairQueue<H> {
    #[verifier::type_invariant]
    spec fn inv(self) -> bool {
        self@.wf()
    }

    /// A queue with `permits` permits, nobody waiting and nobody woken.
    pub fn new(permits: usize) -> (queue: Self)
        ensures
            queue@ == FairState::<H>::start(permits as nat),
            queue@.wf(),
    {
        FairQueue { tally: Tally { permits, woken: 0 }, waiting: VecDeque::new() }
    }

    /// The counts fit their machine words.
    pub proof fn lemma_counts_fit(self)
        ensures
            self@.permits <= usize::MAX,
            self@.woken <= usize::MAX,
    {
    }

    /// The permits that nobody holds, those kept for woken callers included.
    pub fn available(&self) -> (permits: usize)
        ensures
            permits == self@.permits,
            self@.wf(),
    {
        proof {
            use_type_invariant(self);
        }
        self.tally.permits
    }

    /// The number of callers that were woken and have not resumed yet.
    pub fn woken(&self) -> (woken: usize)
        ensures
            woken == self@.woken,
            self@.wf(),
    {
        proof {
            use_type_invariant(self);
        }
        self.tally.woken
    }

    /// The number of callers that wait.
    pub fn waiting(&self) -> (waiting: usize)
        ensures
            waiting == self@.waiting.len(),
            self@.wf(),
    {
        proof {
            use_type_invariant(self);
        }
        self.waiting.len()
    }

    /// Takes a permit if nobody waits and one is left beyond those kept for
    /// woken callers.  Returns whether the caller was let in; a caller that
    /// was not has to join the queue.
    pub fn try_acquire(&mut self) -> (admitted: bool)
        ensures
            admitted == old(self)@.admits(),
            final(self)@ == old(self)@.after_acquire(),
            final(self)@.wf(),
            final(self)@.permits <= usize::MAX,
    {
        proof {
            use_type_invariant(&*self);
        }
        if self.waiting.len() == 0 && self.tally.permits > self.tally.woken {
            self.tally = Tally { permits: self.tally.permits - 1, woken: self.tally.woken };
            true
        } else {
            false
        }
    }

    /// Puts the handle of a caller that was not let in at the end of the
    /// queue.
    pub fn enqueue(&mut self, waiter: H)
        requires
            !old(self)@.admits(),
        ensures
            final(self)@ == old(self)@.after_enqueue(waiter),
            final(self)@.wf(),
            final(self)@.permits <= usize::MAX,
    {
        proof {
            use_type_invariant(&*self);
        }
        // The queue changes outside the state and is put back whole, so the
        // state holds at every moment a queue that fits its counts.
        let mut waiting = VecDeque::new();
        std::mem::swap(&mut self.waiting, &mut waiting);
        waiting.push_back(waiter);
        std::mem::swap(&mut self.waiting, &mut waiting);
    }

    /// Gives a permit back: the count grows by one.  While callers wait, the
    /// one that waited longest leaves the queue and its handle is returned,
    /// for the releasing thread to wake it; the new permit is kept for that
    /// caller until it resumes.
    pub fn release(&mut self) -> (woken: Option<H>)
        ensures
            woken == old(self)@.next_woken(),
            final(self)@ == old(self)@.after_release(),
            final(self)@.wf(),
            final(self)@.permits <= usize::MAX,
    {
        proof {
            use_type_invariant(&*self);
        }
        if self.tally.permits == usize::MAX {
            None
        } else if self.waiting.len() == 0 {
            self.tally = Tally { permits: self.tally.permits + 1, woken: self.tally.woken };
            None
        } else {
            let mut waiting = VecDeque::new();
            std::mem::swap(&mut self.waiting, &mut waiting);
            let woken = waiting.pop_front();
            self.tally = Tally { permits: self.tally.permits + 1, woken: self.tally.woken + 1 };
            std::mem::swap(&mut self.waiting, &mut waiting);
            assert(self.waiting@ =~= old(self).waiting@.drop_first());
            woken
        }
    }

    /// The step of a woken caller, made under the lock each time it wakes: it
    /// looks at the count again and takes its permit.  Returns whether the
    /// caller may go on; if no permit is there for it, nothing changes and
    /// the caller has to keep waiting.
    pub fn resume(&mut self) -> (resumed: bool)
        ensures
            resumed == old(self)@.can_resume(),
            final(self)@ == old(self)@.after_resume(),
            final(self)@.wf(),
            final(self)@.permits <= usize::MAX,
    {
        proof {
            use_type_invariant(&*self);
        }
        if self.tally.permits > 0 && self.tally.woken > 0 {
            self.tally = Tally { permits: self.tally.permits - 1, woken: self.tally.woken - 1 };
            true
        } else {
            false
        }
    }
}

/// A group of callers around one fair queue.  A caller's wake handle is its
/// index in the group.
pub struct FairCrowd {
    pub queue: FairState<int>,
    /// Who is inside, with a permit taken.
    pub inside: Seq<bool>,
    /// Who was woken by a release and has not taken its permit yet.
    pub woken: Seq<bool>,
    /// The callers in the order in which they asked for a permit.
    pub arrivals: Seq<int>,
    /// The callers in the order in which they were granted one: let in at
    /// once, or woken by a release.
    pub admissions: Seq<int>,
}

impl FairCrowd {
    /// `callers` callers, all outside, around a queue with `permits` permits.
    pub open spec fn start(permits: nat, callers: nat) -> FairCrowd {
        FairCrowd {
            queue: FairState::start(permits),
            inside: all_outside(callers),
            woken: all_outside(callers),
            arrivals: Seq::empty(),
            admissions: Seq::empty(),
        }
    }

    /// The callers that are inside.
    pub open spec fn holders(self) -> nat {
        occupancy(self.inside)
    }

    /// Whether caller `who` waits in the queue.
    pub open spec fn waits(self, who: int) -> bool {
        self.queue.waiting.contains(who)
    }

    /// The crowd after a release: the queue takes the permit, and the caller
    /// that it names, if any, is woken.
    pub open spec fn release(self) -> FairCrowd {
        let queue = self.queue.after_release();
        match self.queue.next_woken() {
            Some(first) => FairCrowd {
                queue,
                woken: if 0 <= first < self.woken.len() {
                    self.woken.update(first, true)
                } else {
                    self.woken
                },
                admissions: self.admissions.push(first),
                ..self
            },
            None => FairCrowd { queue, ..self },
        }
    }

    /// The crowd after one move.  A caller that is inside leaves and
    /// releases.  A caller that was woken looks at the count again and takes
    /// its permit, or keeps waiting if none is there for it.  A caller that
    /// waits in the queue stays where it is, also if it wakes without cause.
    /// A caller that is outside asks for a permit: it is inside at once if
    /// the queue lets it in, and joins the queue otherwise.
    pub open spec fn step(self, next: Move) -> FairCrowd {
        match next {
            Move::Release => self.release(),
            Move::Caller(who) => if !(0 <= who < self.inside.len() && who < self.woken.len()) {
                self
            } else if self.inside[who] {
                FairCrowd { inside: self.inside.update(who, false), ..self }.release()
            } else if self.woken[who] {
                if self.queue.can_resume() {
                    FairCrowd {
                        queue: self.queue.after_resume(),
                        inside: self.inside.update(who, true),
                        woken: self.woken.update(who, false),
                        ..self
                    }
                } else {
                    self
                }
            } else if self.waits(who) {
                self
            } else if self.queue.admits() {
                FairCrowd {
                    queue: self.queue.after_acquire(),
                    inside: self.inside.update(who, true),
                    arrivals: self.arrivals.push(who),
                    admissions: self.admissions.push(who),
                    ..self
                }
            } else {
                FairCrowd {
                    queue: self.queue.after_enqueue(who),
                    arrivals: self.arrivals.push(who),
                    ..self
                }
            },
        }
    }

    /// The crowd after the moves of `schedule`, in their order.
    pub open spec fn run(self, schedule: Seq<Move>) -> FairCrowd
        decreases schedule.len(),
    {
        if schedule.len() == 0 {
            self
        } else {
            self.run(schedule.drop_last()).step(schedule.last())
        }
    }

    /// What holds of a crowd at every moment.  The queue keeps a permit for
    /// each woken caller, and callers wait only while no other permit is
    /// left.  Nobody is woken and inside at once.  Each entry of the queue is
    /// a caller of the group that is neither inside nor woken, and none
    /// stands in it twice.  The callers granted a permit so far, followed by
    /// those that wait, are the callers that asked, in the order in which
    /// they asked.
    pub open spec fn orderly(self, callers: nat) -> bool {
        &&& self.inside.len() == callers
        &&& self.woken.len() == callers
        &&& self.queue.wf()
        &&& self.queue.woken == occupancy(self.woken)
        &&& forall|who: int| 0 <= who < callers ==> !(self.inside[who] && self.woken[who])
        &&& forall|k: int|
            0 <= k < self.queue.waiting.len() ==> 0 <= #[trigger] self.queue.waiting[k] < callers
                && !self.inside[self.queue.waiting[k]] && !self.woken[self.queue.waiting[k]]
        &&& forall|j: int, k: int|
            0 <= j < k < self.queue.waiting.len() ==> self.queue.waiting[j]
                != self.queue.waiting[k]
        &&& self.admissions + self.queue.waiting == self.arrivals
    }
}

/// A release keeps an orderly crowd orderly.
proof fn lemma_release_keeps_order(crowd: FairCrowd, callers: nat)
    requires
        crowd.orderly(callers),
    ensures
        crowd.release().orderly(callers),
{
    let after = crowd.release();
    let waiting = crowd.queue.waiting;
    if crowd.queue.takes_release() && waiting.len() > 0 {
        let first = waiting[0];
        lemma_occupancy_update(crowd.woken, first, true);
        assert(after.queue.waiting == waiting.drop_first());
        assert forall|k: int| 0 <= k < after.queue.waiting.len() implies 0
            <= #[trigger] after.queue.waiting[k] < callers
            && !after.inside[after.queue.waiting[k]] && !after.woken[after.queue.waiting[k]] by {
            assert(after.queue.waiting[k] == waiting[k + 1]);
            assert(waiting[0] != waiting[k + 1]);
        }
        assert forall|j: int, k: int|
            0 <= j < k < after.queue.waiting.len() implies after.queue.waiting[j]
            != after.queue.waiting[k] by {
            assert(waiting[j + 1] != waiting[k + 1]);
        }
        assert(after.admissions + after.queue.waiting =~= crowd.admissions + waiting);
    }
}

/// A move keeps an orderly crowd orderly.
proof fn lemma_step_keeps_order(crowd: FairCrowd, callers: nat, next: Move)
    requires
        crowd.orderly(callers),
    ensures
        crowd.step(next).orderly(callers),
{
    let after = crowd.step(next);
    let waiting = crowd.queue.waiting;
    match next {
        Move::Release => {
            lemma_release_keeps_order(crowd, callers);
        },
        Move::Caller(who) => {
            if !(0 <= who < callers) {
            } else if crowd.inside[who] {
                let left = FairCrowd { inside: crowd.inside.update(who, false), ..crowd };
                assert(left.orderly(callers));
                lemma_release_keeps_order(left, callers);
            } else if crowd.woken[who] {
                lemma_occupancy_update(crowd.woken, who, false);
            } else if crowd.waits(who) {
            } else if crowd.queue.admits() {
                assert(after.admissions + after.queue.waiting =~= after.arrivals);
            } else {
                assert forall|k: int| 0 <= k < after.queue.waiting.len() implies 0
                    <= #[trigger] after.queue.waiting[k] < callers
                    && !after.inside[after.queue.waiting[k]]
                    && !after.woken[after.queue.waiting[k]] by {
                    if k < waiting.len() {
                        assert(after.queue.waiting[k] == waiting[k]);
                    }
                }
                assert forall|j: int, k: int|
                    0 <= j < k < after.queue.waiting.len() implies after.queue.waiting[j]
                    != after.queue.waiting[k] by {
                    assert(after.queue.waiting[j] == waiting[j]);
                    if k < waiting.len() {
                        assert(after.queue.waiting[k] == waiting[k]);
                    } else {
                        assert(waiting.contains(waiting[j]));
                    }
                }
                assert(after.admissions + after.queue.waiting =~= after.arrivals);
            }
        },
    }
}

/// A crowd is orderly at every moment, however the moves interleave.
pub proof fn lemma_crowd_is_orderly(capacity: nat, callers: nat, schedule: Seq<Move>)
    ensures
        FairCrowd::start(capacity, callers).run(schedule).orderly(callers),
    decreases schedule.len(),
{
    if schedule.len() == 0 {
        lemma_occupancy_all_outside(callers);
        assert(FairCrowd::start(capacity, callers).admissions + FairCrowd::start(
            capacity,
            callers,
        ).queue.waiting =~= FairCrowd::start(capacity, callers).arrivals);
    } else {
        lemma_crowd_is_orderly(capacity, callers, schedule.drop_last());
        lemma_step_keeps_order(
            FairCrowd::start(capacity, callers).run(schedule.drop_last()),
            callers,
            schedule.last(),
        );
    }
}

/// First come, first served: however the moves interleave, the callers are
/// granted their permits in the order in which they asked.  The callers
/// granted so far are the first of those that asked, in the same order, and
/// the others wait in the queue, in the same order too.
pub proof fn lemma_first_come_first_served(capacity: nat, callers: nat, schedule: Seq<Move>)
    ensures
        ({
            let crowd = FairCrowd::start(capacity, callers).run(schedule);
            &&& crowd.arrivals == crowd.admissions + crowd.queue.waiting
            &&& crowd.admissions.len() <= crowd.arrivals.len()
            &&& forall|k: int|
                0 <= k < crowd.admissions.len() ==> crowd.admissions[k] == crowd.arrivals[k]
            &&& forall|k: int|
                0 <= k < crowd.queue.waiting.len() ==> crowd.queue.waiting[k]
                    == crowd.arrivals[crowd.admissions.len() + k]
        }),
{
    lemma_crowd_is_orderly(capacity, callers, schedule);
}

/// A woken caller finds its permit: however the moves interleave, and
/// whoever arrives between the release and the moment the woken caller looks
/// at the count again, a permit is there for it, and the callers that are let
/// in at once take only permits beyond those kept.
pub proof fn lemma_woken_caller_finds_its_permit(
    capacity: nat,
    callers: nat,
    schedule: Seq<Move>,
    who: int,
)
    requires
        0 <= who < callers,
        FairCrowd::start(capacity, callers).run(schedule).woken[who],
    ensures
        ({
            let crowd = FairCrowd::start(capacity, callers).run(schedule);
            &&& crowd.queue.can_resume()
            &&& crowd.step(Move::Caller(who)).inside[who]
            &&& crowd.step(Move::Caller(who)).queue.permits == crowd.queue.permits - 1
        }),
{
    lemma_crowd_is_orderly(capacity, callers, schedule);
    let crowd = FairCrowd::start(capacity, callers).run(schedule);
    lemma_occupancy_update(crowd.woken, who, false);
}

/// A release adds one to the callers inside and the permits left, taken
/// together, unless the count is at the largest value of its machine word;
/// it never adds more.
proof fn lemma_release_adds_one(crowd: FairCrowd, callers: nat)
    requires
        crowd.orderly(callers),
    ensures
        crowd.release().holders() + crowd.release().queue.permits <= crowd.holders()
            + crowd.queue.permits + 1,
        crowd.queue.permits < usize::MAX ==> crowd.release().holders()
            + crowd.release().queue.permits == crowd.holders() + crowd.queue.permits + 1,
{
}

/// Permits are conserved: however the moves interleave, the callers inside
/// and the permits that nobody holds add up to the permits the queue started
/// with and the releases that came from outside, as long as that sum fits the
/// machine word of the count; they never add up to more.
pub proof fn lemma_fair_permits_are_conserved(capacity: nat, callers: nat, schedule: Seq<Move>)
    ensures
        ({
            let crowd = FairCrowd::start(capacity, callers).run(schedule);
            &&& crowd.holders() + crowd.queue.permits <= capacity + outside_releases(schedule)
            &&& capacity + outside_releases(schedule) <= usize::MAX ==> crowd.holders()
                + crowd.queue.permits == capacity + outside_releases(schedule)
        }),
    decreases schedule.len(),
{
    if schedule.len() == 0 {
        lemma_occupancy_all_outside(callers);
    } else {
        lemma_fair_permits_are_conserved(capacity, callers, schedule.drop_last());
        lemma_crowd_is_orderly(capacity, callers, schedule.drop_last());
        let before = FairCrowd::start(capacity, callers).run(schedule.drop_last());
        match schedule.last() {
            Move::Release => {
                lemma_release_adds_one(before, callers);
            },
            Move::Caller(who) => {
                if !(0 <= who < callers) {
                } else if before.inside[who] {
                    let left = FairCrowd { inside: before.inside.update(who, false), ..before };
                    lemma_occupancy_update(before.inside, who, false);
                    assert(left.orderly(callers));
                    lemma_release_adds_one(left, callers);
                } else if before.woken[who] {
                    lemma_occupancy_update(before.woken, who, false);
                    lemma_occupancy_update(before.inside, who, true);
                } else if before.waits(who) {
                } else if before.queue.admits() {
                    lemma_occupancy_update(before.inside, who, true);
                } else {
                }
            },
        }
    }
}

/// Bounded concurrency: while every release comes from a caller that was let
/// in, never more callers are inside than the queue started with permits,
/// and once all of them are outside again every permit is back.
pub proof fn lemma_fair_bounded_concurrency(capacity: nat, callers: nat, schedule: Seq<Move>)
    requires
        capacity <= usize::MAX,
        outside_releases(schedule) == 0,
    ensures
        ({
            let crowd = FairCrowd::start(capacity, callers).run(schedule);
            &&& crowd.holders() <= capacity
            &&& crowd.holders() + crowd.queue.permits == capacity
            &&& (forall|who: int| 0 <= who < callers ==> !crowd.inside[who])
                ==> crowd.queue.permits == capacity
        }),
{
    lemma_fair_permits_are_conserved(capacity, callers, schedule);
    lemma_crowd_is_orderly(capacity, callers, schedule);
    lemma_occupancy_zero(FairCrowd::start(capacity, callers).run(schedule).inside);
}

/// A queue that starts without permits lets nobody in before a release
/// arrives from outside: never more callers are inside than such releases
/// have happened, and without any nobody is granted a permit at all.
pub proof fn lemma_fair_zero_permits_admit_nobody(callers: nat, schedule: Seq<Move>)
    ensures
        ({
            let crowd = FairCrowd::start(0, callers).run(schedule);
            &&& crowd.holders() <= outside_releases(schedule)
            &&& outside_releases(schedule) == 0 ==> crowd.admissions.len() == 0 && forall|
                who: int,
            | 0 <= who < callers ==> !crowd.inside[who] && !crowd.woken[who]
        }),
    decreases schedule.len(),
{
    let crowd = FairCrowd::start(0, callers).run(schedule);
    lemma_fair_permits_are_conserved(0, callers, schedule);
    lemma_crowd_is_orderly(0, callers, schedule);
    lemma_occupancy_zero(crowd.inside);
    lemma_occupancy_zero(crowd.woken);
    if schedule.len() > 0 {
        lemma_fair_zero_permits_admit_nobody(callers, schedule.drop_last());
        lemma_fair_permits_are_conserved(0, callers, schedule.drop_last());
        lemma_crowd_is_orderly(0, callers, schedule.drop_last());
    }
}

} // verus!
