//! Keeping the pool warm: every slot has a container whose worker runs.

use vstd::prelude::*;

use crate::listener;
use crate::listener::{next_place, stale_entries, PoolController, PoolReply};
use crate::search::list_contains;
use crate::state::ContainerState;
use crate::text::same_text;

verus! {

/// How far a round of maintenance has come.
#[derive(Debug)]
pub enum MaintainStage {
    /// The containers of the pool have to be listed.
    ListCurrent,
    /// The slot has no container: one has to be made.
    Spawn { current: Vec<String>, slot: usize },
    /// The worker of the slot has to be checked.
    Check { current: Vec<String>, slot: usize },
    /// The container of the slot has to be cleaned up and made again.
    Respawn { current: Vec<String>, slot: usize },
    /// What is remembered of the container of the slot has to be looked up.
    LoadState { current: Vec<String>, slot: usize },
    /// This has to be remembered of the container of the slot.
    UpdateState { current: Vec<String>, slot: usize, state: ContainerState },
    /// The container of the slot has to be remembered as one that is started now, with the public key
    /// of its worker.
    RecoverState { current: Vec<String>, slot: usize, worker_pubkey: String },
    /// The containers of the pool have to be listed once more.
    ListLatest,
    /// The remembered containers have to be listed.
    ListEntries { latest: Vec<String> },
    /// A stale entry has to be removed.
    RemoveEntry { stale: Vec<String>, next: usize },
    /// The round is over.
    Done { result: Result<(), String> },
}

/// Whether a reply is one that the stage asked for. Any other reply to a question leaves it open.
pub open spec fn reply_fits_maintain(stage: MaintainStage, reply: PoolReply) -> bool {
    reply is Failed || match stage {
        MaintainStage::ListCurrent => reply is Names,
        MaintainStage::Check { .. } => reply is Completed,
        MaintainStage::LoadState { .. } => reply is State,
        MaintainStage::ListLatest => reply is Names,
        MaintainStage::ListEntries { .. } => reply is Names,
        _ => reply is Done,
    }
}

/// Whether the round ends with the failure that came up.
pub open spec fn maintain_fails(message: Seq<char>, next: MaintainStage) -> bool {
    next matches MaintainStage::Done { result } && result matches Err(m) && m@ == message
}

/// Whether the next stale entry is removed, or the round is over.
pub open spec fn removes_entry(stale: Seq<Seq<char>>, from: nat, next: MaintainStage) -> bool {
    if from < stale.len() {
        next matches MaintainStage::RemoveEntry { stale: s, next: i } && s.deep_view() == stale
            && i == from
    } else {
        next matches MaintainStage::Done { result } && result is Ok
    }
}

impl PoolController {
    /// Whether a slot is looked after: its worker is checked where its container is listed, and a
    /// container is made where it is not. After the last slot the containers are listed again.
    pub open spec fn looks_after(
        self,
        current: Seq<Seq<char>>,
        slot: nat,
        next: MaintainStage,
    ) -> bool {
        if slot >= self.config.max_concurrent_jobs {
            next is ListLatest
        } else if current.contains(self.name_of(slot)) {
            next matches MaintainStage::Check { current: c, slot: s } && c.deep_view() == current
                && s == slot
        } else {
            next matches MaintainStage::Spawn { current: c, slot: s } && c.deep_view() == current
                && s == slot
        }
    }

    /// Whether `next` follows `stage` with this reply.
    ///
    /// Slots are looked after in order, and what fails for one slot keeps no other from being looked
    /// after, unless the remembered state cannot be read or written. A worker that has completed, or
    /// cannot be checked, is made again. One that runs is remembered with its own public key.
    pub open spec fn is_maintain_step(
        self,
        stage: MaintainStage,
        reply: PoolReply,
        next: MaintainStage,
    ) -> bool {
        match (stage, reply) {
            (MaintainStage::Done { .. }, _) => next == stage,
            (MaintainStage::ListCurrent, PoolReply::Names(names)) => self.looks_after(
                names.deep_view(),
                0,
                next,
            ),
            (MaintainStage::Spawn { current, slot }, _) => self.looks_after(
                current.deep_view(),
                (slot + 1) as nat,
                next,
            ),
            (MaintainStage::Respawn { current, slot }, _) => self.looks_after(
                current.deep_view(),
                (slot + 1) as nat,
                next,
            ),
            (MaintainStage::RecoverState { current, slot, .. }, _) => self.looks_after(
                current.deep_view(),
                (slot + 1) as nat,
                next,
            ),
            (MaintainStage::Check { current, slot }, PoolReply::Completed(completed)) => {
                if completed {
                    &&& next matches MaintainStage::Respawn { current: c, slot: s }
                    &&& c.deep_view() == current.deep_view() && s == slot
                } else {
                    &&& next matches MaintainStage::LoadState { current: c, slot: s }
                    &&& c.deep_view() == current.deep_view() && s == slot
                }
            },
            (MaintainStage::Check { current, slot }, PoolReply::Failed(_)) => {
                &&& next matches MaintainStage::Respawn { current: c, slot: s }
                &&& c.deep_view() == current.deep_view() && s == slot
            },
            (MaintainStage::LoadState { current, slot }, PoolReply::State(known)) => match known {
                Some(state) => if state.worker_pubkey@ == self.workers@[slot as int].pubkey@ {
                    self.looks_after(current.deep_view(), (slot + 1) as nat, next)
                } else {
                    &&& next matches MaintainStage::UpdateState { current: c, slot: s, state: t }
                    &&& c.deep_view() == current.deep_view() && s == slot
                    &&& t.slot == state.slot
                    &&& t.started_at == state.started_at
                    &&& t.advertised_at == state.advertised_at
                    &&& t.worker_pubkey@ == self.workers@[slot as int].pubkey@
                },
                None => {
                    &&& next matches MaintainStage::RecoverState {
                        current: c,
                        slot: s,
                        worker_pubkey,
                    }
                    &&& c.deep_view() == current.deep_view() && s == slot
                    &&& worker_pubkey@ == self.workers@[slot as int].pubkey@
                },
            },
            (_, PoolReply::Failed(m)) => maintain_fails(m@, next),
            (MaintainStage::UpdateState { current, slot, .. }, _) => self.looks_after(
                current.deep_view(),
                (slot + 1) as nat,
                next,
            ),
            (MaintainStage::ListLatest, PoolReply::Names(names)) => {
                &&& next matches MaintainStage::ListEntries { latest }
                &&& latest.deep_view() == names.deep_view()
            },
            (MaintainStage::ListEntries { latest }, PoolReply::Names(entries)) => removes_entry(
                listener::stale_names(entries.deep_view(), latest.deep_view()),
                0,
                next,
            ),
            (MaintainStage::RemoveEntry { stale, next: i }, _) => removes_entry(
                stale.deep_view(),
                (i + 1) as nat,
                next,
            ),
            _ => next == stage,
        }
    }

    /// Whether the slot or the place in a list is one that there is.
    pub open spec fn maintain_wf(self, stage: MaintainStage) -> bool {
        match stage {
            MaintainStage::Spawn { slot, .. } => slot < self.config.max_concurrent_jobs,
            MaintainStage::Check { slot, .. } => slot < self.config.max_concurrent_jobs,
            MaintainStage::Respawn { slot, .. } => slot < self.config.max_concurrent_jobs,
            MaintainStage::LoadState { slot, .. } => slot < self.config.max_concurrent_jobs,
            MaintainStage::UpdateState { slot, .. } => slot < self.config.max_concurrent_jobs,
            MaintainStage::RecoverState { slot, .. } => slot < self.config.max_concurrent_jobs,
            MaintainStage::RemoveEntry { stale, next } => next < stale@.len(),
            _ => true,
        }
    }

    fn look_after(&self, current: Vec<String>, slot: usize) -> (r: MaintainStage)
        ensures
            self.looks_after(current.deep_view(), slot as nat, r),
            self.maintain_wf(r),
    {
        if slot >= self.config.max_concurrent_jobs {
            return MaintainStage::ListLatest;
        }
        let name = self.container_name(slot);
        if list_contains(&current, name.as_str()) {
            MaintainStage::Check { current, slot }
        } else {
            MaintainStage::Spawn { current, slot }
        }
    }

    /// Begins a round of maintenance.
    pub fn maintain_pool(&self) -> (r: MaintainStage)
        ensures
            r is ListCurrent,
            self.maintain_wf(r),
    {
        MaintainStage::ListCurrent
    }

    /// Goes on with a round of maintenance when what had to be done has been answered.
    pub fn resume_maintain(&self, stage: MaintainStage, reply: PoolReply) -> (r: MaintainStage)
        requires
            self.wf(),
            self.maintain_wf(stage),
        ensures
            self.is_maintain_step(stage, reply, r),
            self.maintain_wf(r),
    {
        match (stage, reply) {
            (MaintainStage::Done { result }, _) => MaintainStage::Done { result },
            (MaintainStage::ListCurrent, PoolReply::Names(names)) => self.look_after(names, 0),
            (MaintainStage::Spawn { current, slot }, _) => self.look_after(current, slot + 1),
            (MaintainStage::Respawn { current, slot }, _) => self.look_after(current, slot + 1),
            (MaintainStage::RecoverState { current, slot, .. }, _) => self.look_after(
                current,
                slot + 1,
            ),
            (MaintainStage::Check { current, slot }, PoolReply::Completed(completed)) => {
                if completed {
                    MaintainStage::Respawn { current, slot }
                } else {
                    MaintainStage::LoadState { current, slot }
                }
            },
            (MaintainStage::Check { current, slot }, PoolReply::Failed(_)) =>
                MaintainStage::Respawn { current, slot },
            (MaintainStage::LoadState { current, slot }, PoolReply::State(known)) => {
                let worker = &self.workers[slot];
                match known {
                    Some(mut state) => {
                        if same_text(state.worker_pubkey.as_str(), worker.pubkey.as_str()) {
                            self.look_after(current, slot + 1)
                        } else {
                            state.worker_pubkey = worker.pubkey.clone();
                            MaintainStage::UpdateState { current, slot, state }
                        }
                    },
                    None => MaintainStage::RecoverState {
                        current,
                        slot,
                        worker_pubkey: worker.pubkey.clone(),
                    },
                }
            },
            (_, PoolReply::Failed(m)) => MaintainStage::Done { result: Err(m) },
            (MaintainStage::UpdateState { current, slot, .. }, _) => self.look_after(
                current,
                slot + 1,
            ),
            (MaintainStage::ListLatest, PoolReply::Names(names)) => MaintainStage::ListEntries {
                latest: names,
            },
            (MaintainStage::ListEntries { latest }, PoolReply::Names(entries)) => {
                let stale = stale_entries(&entries, &latest);
                remove_entry(stale, 0)
            },
            (MaintainStage::RemoveEntry { stale, next }, _) => {
                let from: usize = next_place(next, stale.len());
                remove_entry(stale, from)
            },
            (stage, _) => stage,
        }
    }
}

fn remove_entry(stale: Vec<String>, from: usize) -> (r: MaintainStage)
    ensures
        removes_entry(stale.deep_view(), from as nat, r),
        r matches MaintainStage::RemoveEntry { stale: s, next } ==> next < s@.len(),
{
    if from < stale.len() {
        MaintainStage::RemoveEntry { stale, next: from }
    } else {
        MaintainStage::Done { result: Ok(()) }
    }
}

// ---------------------------------------------------------------------------------------------
// Laws
// ---------------------------------------------------------------------------------------------

/// The slot that a stage looks after, the number of slots once all are looked after.
pub open spec fn slot_of(pool: PoolController, stage: MaintainStage) -> nat {
    match stage {
        MaintainStage::ListCurrent => 0,
        MaintainStage::Spawn { slot, .. } => slot as nat,
        MaintainStage::Check { slot, .. } => slot as nat,
        MaintainStage::Respawn { slot, .. } => slot as nat,
        MaintainStage::LoadState { slot, .. } => slot as nat,
        MaintainStage::UpdateState { slot, .. } => slot as nat,
        MaintainStage::RecoverState { slot, .. } => slot as nat,
        _ => pool.config.max_concurrent_jobs as nat,
    }
}

/// How many stages may still come for the same slot or, after the last slot, for the entries.
pub open spec fn steps_left(stage: MaintainStage) -> int {
    match stage {
        MaintainStage::ListCurrent => 5,
        MaintainStage::Check { .. } => 3,
        MaintainStage::LoadState { .. } => 2,
        MaintainStage::Spawn { .. } => 1,
        MaintainStage::Respawn { .. } => 1,
        MaintainStage::UpdateState { .. } => 1,
        MaintainStage::RecoverState { .. } => 1,
        MaintainStage::ListLatest => 3,
        MaintainStage::ListEntries { .. } => 2,
        MaintainStage::RemoveEntry { .. } => 1,
        MaintainStage::Done { .. } => 0,
    }
}

/// How many stale entries are left.
pub open spec fn entries_left(stage: MaintainStage) -> int {
    match stage {
        MaintainStage::RemoveEntry { stale, next } => stale@.len() - next,
        _ => 0,
    }
}

/// A round of maintenance leaves no slot out: a step stays with its slot or goes on to the next one,
/// unless the round is broken off by a failure.
pub proof fn lemma_no_slot_is_left_out(
    pool: PoolController,
    stage: MaintainStage,
    reply: PoolReply,
    next: MaintainStage,
)
    requires
        pool.maintain_wf(stage),
        reply_fits_maintain(stage, reply),
        pool.is_maintain_step(stage, reply, next),
    ensures
        slot_of(pool, next) == slot_of(pool, stage) || slot_of(pool, next) == slot_of(pool, stage)
            + 1 || (reply matches PoolReply::Failed(m) && maintain_fails(m@, next)),
{
}

/// A round of maintenance ends: every step goes on to the next slot, or leaves fewer stages for the
/// same one, or fewer entries.
pub proof fn lemma_maintenance_ends(
    pool: PoolController,
    stage: MaintainStage,
    reply: PoolReply,
    next: MaintainStage,
)
    requires
        !(stage is Done),
        pool.maintain_wf(stage),
        reply_fits_maintain(stage, reply),
        pool.is_maintain_step(stage, reply, next),
    ensures
        slot_of(pool, next) > slot_of(pool, stage) || (slot_of(pool, next) == slot_of(pool, stage)
            && 0 <= steps_left(next) < steps_left(stage)) || (slot_of(pool, next) == slot_of(
            pool,
            stage,
        ) && steps_left(next) == steps_left(stage) && 0 <= entries_left(next) < entries_left(
            stage,
        )),
        slot_of(pool, next) <= pool.config.max_concurrent_jobs,
{
    match (stage, next) {
        (MaintainStage::RemoveEntry { stale, .. }, MaintainStage::RemoveEntry { stale: s, .. }) => {
            assert(stale.deep_view().len() == s.deep_view().len());
        },
        _ => {},
    }
}

/// A slot without a container gets one: nothing but the making of its container comes next.
pub proof fn lemma_missing_containers_are_made(
    pool: PoolController,
    current: Seq<Seq<char>>,
    slot: nat,
    next: MaintainStage,
)
    requires
        slot < pool.config.max_concurrent_jobs,
        pool.looks_after(current, slot, next),
    ensures
        next is Spawn <==> !current.contains(pool.name_of(slot)),
        next is Check <==> current.contains(pool.name_of(slot)),
{
}

} // verus!
