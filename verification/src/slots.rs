//! The work on one slot: making its container, making it again, and advertising its worker.

use vstd::prelude::*;

use crate::listener::{PoolController, PoolReply};
use crate::state::ContainerState;

verus! {

/// How far the work on a slot has come.
#[derive(Debug)]
pub enum SlotStage {
    /// The container of the slot has to be cleaned up.
    Clean { slot: usize },
    /// The entry of the container has to be removed.
    Forget { slot: usize },
    /// The container of the slot has to be made.
    Spawn { slot: usize },
    /// The container has to be remembered as one that is started now, with the public key of its
    /// worker.
    Remember { slot: usize, worker_pubkey: String },
    /// The worker of the slot has to be advertised; `made` tells whether its container has just been
    /// made.
    Advertise { slot: usize, made: bool },
    /// What is remembered of the container has to be looked up.
    LoadState { slot: usize, made: bool },
    /// This has to be remembered of the container.
    StoreState { slot: usize, made: bool, state: ContainerState },
    /// The work is over.
    Done { result: Result<(), String> },
}

/// Whether a reply is one that the stage asked for. Any other reply leaves the stage as it is.
pub open spec fn reply_fits_slot(stage: SlotStage, reply: PoolReply) -> bool {
    reply is Failed || match stage {
        SlotStage::LoadState { .. } => reply is StateAt,
        _ => reply is Done,
    }
}

/// Whether the work ends with the failure that came up.
pub open spec fn slot_fails(message: Seq<char>, next: SlotStage) -> bool {
    next matches SlotStage::Done { result } && result matches Err(m) && m@ == message
}

/// Whether the work ends with success.
pub open spec fn slot_succeeds(next: SlotStage) -> bool {
    next matches SlotStage::Done { result } && result is Ok
}

/// Whether the work ends as it does when the worker could not be advertised: a container that has just
/// been made is there all the same, and otherwise the failure is the result.
pub open spec fn is_not_advertised(made: bool, message: Seq<char>, next: SlotStage) -> bool {
    if made {
        slot_succeeds(next)
    } else {
        slot_fails(message, next)
    }
}

impl PoolController {
    /// Whether `next` follows `stage` with this reply.
    ///
    /// A container that is made again is cleaned up and forgotten first. One that has been made is
    /// remembered, and then its worker is advertised. A worker that has been advertised is remembered
    /// as such, with its own public key, where its container is remembered.
    pub open spec fn is_slot_step(
        self,
        stage: SlotStage,
        reply: PoolReply,
        next: SlotStage,
    ) -> bool {
        match (stage, reply) {
            (SlotStage::Done { .. }, _) => next == stage,
            (SlotStage::Advertise { made, .. }, PoolReply::Failed(m)) => is_not_advertised(
                made,
                m@,
                next,
            ),
            (SlotStage::LoadState { made, .. }, PoolReply::Failed(m)) => is_not_advertised(
                made,
                m@,
                next,
            ),
            (SlotStage::StoreState { made, .. }, PoolReply::Failed(m)) => is_not_advertised(
                made,
                m@,
                next,
            ),
            (_, PoolReply::Failed(m)) => slot_fails(m@, next),
            (SlotStage::Clean { slot }, PoolReply::Done) => next == (SlotStage::Forget { slot }),
            (SlotStage::Forget { slot }, PoolReply::Done) => next == (SlotStage::Spawn { slot }),
            (SlotStage::Spawn { slot }, PoolReply::Done) => {
                &&& next matches SlotStage::Remember { slot: s, worker_pubkey }
                &&& s == slot
                &&& worker_pubkey@ == self.workers@[slot as int].pubkey@
            },
            (SlotStage::Remember { slot, .. }, PoolReply::Done) => next == (SlotStage::Advertise {
                slot,
                made: true,
            }),
            (SlotStage::Advertise { slot, made }, PoolReply::Done) => next
                == (SlotStage::LoadState { slot, made }),
            (SlotStage::LoadState { slot, made }, PoolReply::StateAt(known, now)) => match known {
                Some(state) => {
                    &&& next matches SlotStage::StoreState { slot: s, made: m, state: t }
                    &&& s == slot && m == made
                    &&& t.slot == state.slot
                    &&& t.started_at == state.started_at
                    &&& t.worker_pubkey@ == self.workers@[slot as int].pubkey@
                    &&& t.advertised_at == Some(now)
                },
                None => slot_succeeds(next),
            },
            (SlotStage::StoreState { .. }, PoolReply::Done) => slot_succeeds(next),
            _ => next == stage,
        }
    }

    /// Whether the slot is one that has a worker.
    pub open spec fn slot_wf(self, stage: SlotStage) -> bool {
        match stage {
            SlotStage::Clean { slot } => slot < self.workers@.len(),
            SlotStage::Forget { slot } => slot < self.workers@.len(),
            SlotStage::Spawn { slot } => slot < self.workers@.len(),
            SlotStage::Remember { slot, .. } => slot < self.workers@.len(),
            SlotStage::Advertise { slot, .. } => slot < self.workers@.len(),
            SlotStage::LoadState { slot, .. } => slot < self.workers@.len(),
            SlotStage::StoreState { slot, .. } => slot < self.workers@.len(),
            SlotStage::Done { .. } => true,
        }
    }

    /// Begins to make the container of a slot.
    pub fn spawn_slot(&self, slot: usize) -> (r: SlotStage)
        ensures
            r == (SlotStage::Spawn { slot }),
            slot < self.workers@.len() ==> self.slot_wf(r),
    {
        SlotStage::Spawn { slot }
    }

    /// Begins to make the container of a slot again.
    pub fn respawn_slot(&self, slot: usize) -> (r: SlotStage)
        ensures
            r == (SlotStage::Clean { slot }),
            slot < self.workers@.len() ==> self.slot_wf(r),
    {
        SlotStage::Clean { slot }
    }

    /// Begins to advertise the worker of a slot.
    pub fn publish_slot(&self, slot: usize) -> (r: SlotStage)
        ensures
            r == (SlotStage::Advertise { slot, made: false }),
            slot < self.workers@.len() ==> self.slot_wf(r),
    {
        SlotStage::Advertise { slot, made: false }
    }

    /// Goes on with the work on a slot when what had to be done has been answered.
    pub fn resume_slot(&self, stage: SlotStage, reply: PoolReply) -> (r: SlotStage)
        requires
            self.slot_wf(stage),
        ensures
            self.is_slot_step(stage, reply, r),
            self.slot_wf(r),
    {
        match (stage, reply) {
            (SlotStage::Done { result }, _) => SlotStage::Done { result },
            (SlotStage::Advertise { made, .. }, PoolReply::Failed(m)) => not_advertised(made, m),
            (SlotStage::LoadState { made, .. }, PoolReply::Failed(m)) => not_advertised(made, m),
            (SlotStage::StoreState { made, .. }, PoolReply::Failed(m)) => not_advertised(made, m),
            (_, PoolReply::Failed(m)) => SlotStage::Done { result: Err(m) },
            (SlotStage::Clean { slot }, PoolReply::Done) => SlotStage::Forget { slot },
            (SlotStage::Forget { slot }, PoolReply::Done) => SlotStage::Spawn { slot },
            (SlotStage::Spawn { slot }, PoolReply::Done) => SlotStage::Remember {
                slot,
                worker_pubkey: self.workers[slot].pubkey.clone(),
            },
            (SlotStage::Remember { slot, .. }, PoolReply::Done) => SlotStage::Advertise {
                slot,
                made: true,
            },
            (SlotStage::Advertise { slot, made }, PoolReply::Done) => SlotStage::LoadState {
                slot,
                made,
            },
            (SlotStage::LoadState { slot, made }, PoolReply::StateAt(known, now)) => match known {
                Some(state) => SlotStage::StoreState {
                    slot,
                    made,
                    state: self.advertised_state(slot, state, now),
                },
                None => SlotStage::Done { result: Ok(()) },
            },
            (SlotStage::StoreState { .. }, PoolReply::Done) => SlotStage::Done { result: Ok(()) },
            (stage, _) => stage,
        }
    }
}

fn not_advertised(made: bool, message: String) -> (r: SlotStage)
    ensures
        is_not_advertised(made, message@, r),
{
    if made {
        SlotStage::Done { result: Ok(()) }
    } else {
        SlotStage::Done { result: Err(message) }
    }
}

// ---------------------------------------------------------------------------------------------
// Laws
// ---------------------------------------------------------------------------------------------

/// How many stages may still come.
pub open spec fn slot_stages_left(stage: SlotStage) -> nat {
    match stage {
        SlotStage::Clean { .. } => 7,
        SlotStage::Forget { .. } => 6,
        SlotStage::Spawn { .. } => 5,
        SlotStage::Remember { .. } => 4,
        SlotStage::Advertise { .. } => 3,
        SlotStage::LoadState { .. } => 2,
        SlotStage::StoreState { .. } => 1,
        SlotStage::Done { .. } => 0,
    }
}

/// The work on a slot ends: every step leads to a later stage.
pub proof fn lemma_slot_work_ends(
    pool: PoolController,
    stage: SlotStage,
    reply: PoolReply,
    next: SlotStage,
)
    requires
        !(stage is Done),
        reply_fits_slot(stage, reply),
        pool.is_slot_step(stage, reply, next),
    ensures
        slot_stages_left(next) < slot_stages_left(stage),
{
}

/// The order of the work: a container that is made again is cleaned up, then forgotten, then made. It
/// is remembered only when it has been made, and its worker is advertised as that of a new container
/// only when the container is remembered.
pub proof fn lemma_slot_work_is_ordered(
    pool: PoolController,
    stage: SlotStage,
    reply: PoolReply,
    next: SlotStage,
)
    requires
        reply_fits_slot(stage, reply),
        pool.is_slot_step(stage, reply, next),
    ensures
        next is Forget ==> stage is Clean && reply is Done,
        next is Spawn ==> stage is Forget && reply is Done,
        next is Remember ==> stage is Spawn && reply is Done,
        next is Advertise ==> stage is Remember && reply is Done,
        next is LoadState ==> stage is Advertise && reply is Done,
        next is StoreState ==> stage is LoadState && reply is StateAt,
{
}

/// Once a new container is remembered, the work succeeds, whatever becomes of the advertisement.
pub proof fn lemma_new_containers_need_no_advertisement(
    pool: PoolController,
    stage: SlotStage,
    reply: PoolReply,
    next: SlotStage,
)
    requires
        stage matches SlotStage::Advertise { made, .. } ==> made,
        stage matches SlotStage::LoadState { made, .. } ==> made,
        stage matches SlotStage::StoreState { made, .. } ==> made,
        stage is Advertise || stage is LoadState || stage is StoreState,
        pool.is_slot_step(stage, reply, next),
    ensures
        next matches SlotStage::Done { result } ==> result is Ok,
        next matches SlotStage::LoadState { made, .. } ==> made,
        next matches SlotStage::StoreState { made, .. } ==> made,
{
}

} // verus!
