//! Groups of callers around one semaphore.
//!
//! The laws of the semaphores speak of a group of callers, each of which
//! loops: acquire, stay inside the protected section for a while, release.
//! A sequence of booleans records who is inside, and a schedule lists, in
//! the order in which they happen, the steps of the callers and the releases
//! that come from outside the group.

use vstd::prelude::*;

verus! {

/// One entry of a schedule.
pub enum Move {
    /// The caller with this index takes its next step.
    Caller(int),
    /// A release by someone who holds no permit.
    Release,
}

/// How many releases from outside the group a schedule holds.
pub open spec fn outside_releases(schedule: Seq<Move>) -> nat
    decreases schedule.len(),
{
    if schedule.len() == 0 {
        0
    } else {
        outside_releases(schedule.drop_last()) + if schedule.last() is Release {
            1nat
        } else {
            0nat
        }
    }
}

/// How many callers are inside.
pub open spec fn occupancy(inside: Seq<bool>) -> nat
    decreases inside.len(),
{
    if inside.len() == 0 {
        0
    } else {
        occupancy(inside.drop_last()) + if inside.last() {
            1nat
        } else {
            0nat
        }
    }
}

/// A group of `callers`, all of them outside.
pub open spec fn all_outside(callers: nat) -> Seq<bool> {
    Seq::new(callers, |who: int| false)
}

/// Nobody is inside a group that is all outside.
pub proof fn lemma_occupancy_all_outside(callers: nat)
    ensures
        occupancy(all_outside(callers)) == 0,
    decreases callers,
{
    if callers > 0 {
        lemma_occupancy_all_outside((callers - 1) as nat);
        assert(all_outside(callers).drop_last() =~= all_outside((callers - 1) as nat));
    }
}

/// Moving one caller in or out changes the occupancy by that caller alone.
pub proof fn lemma_occupancy_update(inside: Seq<bool>, who: int, now: bool)
    requires
        0 <= who < inside.len(),
    ensures
        occupancy(inside.update(who, now)) + (if inside[who] {
            1nat
        } else {
            0nat
        }) == occupancy(inside) + (if now {
            1nat
        } else {
            0nat
        }),
    decreases inside.len(),
{
    let moved = inside.update(who, now);
    if who == inside.len() - 1 {
        assert(moved.drop_last() =~= inside.drop_last());
    } else {
        lemma_occupancy_update(inside.drop_last(), who, now);
        assert(moved.drop_last() =~= inside.drop_last().update(who, now));
    }
}

/// The occupancy is zero exactly when every caller is outside.
pub proof fn lemma_occupancy_zero(inside: Seq<bool>)
    ensures
        occupancy(inside) == 0 <==> forall|who: int| 0 <= who < inside.len() ==> !inside[who],
    decreases inside.len(),
{
    if inside.len() > 0 {
        let rest = inside.drop_last();
        lemma_occupancy_zero(rest);
        if occupancy(inside) == 0 {
            assert forall|who: int| 0 <= who < inside.len() implies !inside[who] by {
                if who < rest.len() {
                    assert(rest[who] == inside[who]);
                }
            }
        }
        if forall|who: int| 0 <= who < inside.len() ==> !inside[who] {
            assert forall|who: int| 0 <= who < rest.len() implies !rest[who] by {
                assert(rest[who] == inside[who]);
            }
        }
    }
}

} // verus!
