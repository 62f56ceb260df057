//! Laws on the work on one slot: making its container, making it again, and advertising its worker.

use vstd::prelude::*;

use crate::listener::{PoolController, PoolReply};
use crate::slots::SlotStage;

verus! {

/// The work on a slot, as a whole: the stages that it went through, and the replies.
pub struct Work {
    pub pool: PoolController,
    pub stages: Seq<SlotStage>,
    pub replies: Seq<PoolReply>,
}

impl Work {
    /// Whether each stage follows from the one before it.
    pub open spec fn wf(self) -> bool {
        &&& self.stages.len() == self.replies.len() + 1
        &&& forall|k: int|
            0 <= k < self.replies.len() ==> self.pool.is_slot_step(
                #[trigger] self.stages[k],
                self.replies[k],
                self.stages[k + 1],
            )
    }

    /// Whether nothing failed from the moment `k` on, for so many replies.
    pub open spec fn goes_well(self, k: int, count: int) -> bool {
        forall|i: int| k <= i < k + count ==> #[trigger] self.replies[i] is Done
    }
}

/// The slot that a stage is about.
pub open spec fn slot_of(stage: SlotStage) -> Option<usize> {
    match stage {
        SlotStage::Clean { slot } => Some(slot),
        SlotStage::Forget { slot } => Some(slot),
        SlotStage::Spawn { slot } => Some(slot),
        SlotStage::Remember { slot, .. } => Some(slot),
        SlotStage::Advertise { slot, .. } => Some(slot),
        SlotStage::LoadState { slot, .. } => Some(slot),
        SlotStage::StoreState { slot, .. } => Some(slot),
        SlotStage::Done { .. } => None,
    }
}

/// The work never turns to another slot.
pub proof fn lemma_work_stays_with_its_slot(work: Work, k: int)
    requires
        work.wf(),
        0 <= k < work.stages.len(),
    ensures
        slot_of(work.stages[k]) is None || slot_of(work.stages[k]) == slot_of(work.stages[0]),
    decreases k,
{
    if k > 0 {
        lemma_work_stays_with_its_slot(work, k - 1);
        let j = k - 1;
        assert(work.pool.is_slot_step(work.stages[j], work.replies[j], work.stages[j + 1]));
    }
}

/// Making a container again: where all goes well it is cleaned up, its entry is removed, it is made, it
/// is remembered with the public key of the worker of the slot, and then that worker is advertised.
pub proof fn lemma_how_a_slot_is_made_again(work: Work, slot: usize)
    requires
        work.wf(),
        work.stages.len() == 6,
        work.stages[0] == (SlotStage::Clean { slot }),
        work.goes_well(0, 5),
    ensures
        work.stages[1] == (SlotStage::Forget { slot }),
        work.stages[2] == (SlotStage::Spawn { slot }),
        work.stages[3] matches SlotStage::Remember { slot: s, worker_pubkey } && s == slot
            && worker_pubkey@ == work.pool.workers@[slot as int].pubkey@,
        work.stages[4] == (SlotStage::Advertise { slot, made: true }),
        work.stages[5] == (SlotStage::LoadState { slot, made: true }),
{
    let (a, b, c, d, e) = (0int, 1int, 2int, 3int, 4int);
    assert(work.pool.is_slot_step(work.stages[a], work.replies[a], work.stages[a + 1]));
    assert(work.replies[0] is Done);
    assert(work.pool.is_slot_step(work.stages[b], work.replies[b], work.stages[b + 1]));
    assert(work.replies[1] is Done);
    assert(work.pool.is_slot_step(work.stages[c], work.replies[c], work.stages[c + 1]));
    assert(work.replies[2] is Done);
    assert(work.pool.is_slot_step(work.stages[d], work.replies[d], work.stages[d + 1]));
    assert(work.replies[3] is Done);
    assert(work.pool.is_slot_step(work.stages[e], work.replies[e], work.stages[e + 1]));
    assert(work.replies[4] is Done);
}

/// A worker that has been advertised is remembered as such: with the time at which that was known, its
/// own public key, and what was known of its container.
pub proof fn lemma_advertisements_are_remembered(work: Work, slot: usize, made: bool)
    requires
        work.wf(),
        work.stages.len() == 4,
        work.stages[0] == (SlotStage::Advertise { slot, made }),
        work.replies[0] is Done,
        work.replies[1] is StateAt,
        work.replies[2] is Done,
    ensures
        work.stages[1] == (SlotStage::LoadState { slot, made }),
        work.replies[1] matches PoolReply::StateAt(known, now) ==> {
            &&& known matches Some(old) ==> (work.stages[2] matches SlotStage::StoreState {
                slot: s,
                made: m,
                state,
            } && {
                &&& s == slot
                &&& m == made
                &&& state.slot == old.slot
                &&& state.started_at == old.started_at
                &&& state.advertised_at == Some(now)
                &&& state.worker_pubkey@ == work.pool.workers@[slot as int].pubkey@
            })
            &&& known is None ==> (work.stages[2] matches SlotStage::Done { result }
                && result is Ok)
        },
        work.stages[3] matches SlotStage::Done { result } && result is Ok,
{
    let (a, b, c) = (0int, 1int, 2int);
    assert(work.pool.is_slot_step(work.stages[a], work.replies[a], work.stages[a + 1]));
    assert(work.pool.is_slot_step(work.stages[b], work.replies[b], work.stages[b + 1]));
    assert(work.pool.is_slot_step(work.stages[c], work.replies[c], work.stages[c + 1]));
}

/// What fails before a container is remembered ends the work, and so does what fails when a worker is
/// advertised again: the failure is the result. When a container has just been made, it is there,
/// whether or not its worker could be advertised.
pub proof fn lemma_failures_of_the_work(work: Work, k: int, m: String)
    requires
        work.wf(),
        0 <= k < work.replies.len(),
        work.replies[k] == PoolReply::Failed(m),
        !(work.stages[k] is Done),
    ensures
        ({
            let next = work.stages[k + 1];
            let made = match work.stages[k] {
                SlotStage::Advertise { made, .. } => made,
                SlotStage::LoadState { made, .. } => made,
                SlotStage::StoreState { made, .. } => made,
                _ => false,
            };
            &&& next is Done
            &&& next matches SlotStage::Done { result } ==> (result is Ok <==> made)
            &&& next matches SlotStage::Done { result } ==> (result matches Err(e) ==> e@ == m@)
        }),
{
    assert(work.pool.is_slot_step(work.stages[k], work.replies[k], work.stages[k + 1]));
}

/// Work that is over stays over, with the result that it had.
pub proof fn lemma_work_that_is_over(work: Work, k: int)
    requires
        work.wf(),
        0 <= k < work.replies.len(),
        work.stages[k] is Done,
    ensures
        work.stages[k + 1] == work.stages[k],
{
    assert(work.pool.is_slot_step(work.stages[k], work.replies[k], work.stages[k + 1]));
}

} // verus!
