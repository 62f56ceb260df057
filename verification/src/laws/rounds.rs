//! Laws on a round of maintenance and on the reconciliation: every slot is looked after, stale entries are
//! removed, and failures are reported.

use vstd::prelude::*;

use crate::listener;
use crate::listener::{PoolController, PoolReply, ReconcileStage};
use crate::maintenance;
use crate::maintenance::MaintainStage;

verus! {

/// A round of maintenance from its beginning on: its stages, and the replies that they got.
pub struct Round {
    pub pool: PoolController,
    pub stages: Seq<MaintainStage>,
    pub replies: Seq<PoolReply>,
}

/// The list of containers and the slot that a stage is about.
pub open spec fn slot_at(stage: MaintainStage) -> Option<(Seq<Seq<char>>, nat)> {
    match stage {
        MaintainStage::Spawn { current, slot } => Some((current.deep_view(), slot as nat)),
        MaintainStage::Check { current, slot } => Some((current.deep_view(), slot as nat)),
        MaintainStage::Respawn { current, slot } => Some((current.deep_view(), slot as nat)),
        MaintainStage::LoadState { current, slot } => Some((current.deep_view(), slot as nat)),
        MaintainStage::UpdateState { current, slot, .. } => Some(
            (current.deep_view(), slot as nat),
        ),
        MaintainStage::RecoverState { current, slot, .. } => Some(
            (current.deep_view(), slot as nat),
        ),
        _ => None,
    }
}

/// Whether the round is over without a failure.
pub open spec fn is_over(stage: MaintainStage) -> bool {
    stage matches MaintainStage::Done { result } && result is Ok
}

/// Whether the round was broken off.
pub open spec fn is_broken_off(stage: MaintainStage) -> bool {
    stage matches MaintainStage::Done { result } && result is Err
}

/// What follows for a slot: wherever a step leaves a slot for another, it is the next one, the list of
/// containers stays the same, and the next slot gets a container where its own is not listed, and has
/// its worker checked where it is. After the last slot the containers are listed once more. A step
/// that stays with its slot goes from the check to the making again or to the memory, and from the
/// memory to what has to be remembered.
pub proof fn lemma_slots_follow_each_other(
    pool: PoolController,
    stage: MaintainStage,
    reply: PoolReply,
    next: MaintainStage,
)
    requires
        pool.maintain_wf(stage),
        maintenance::reply_fits_maintain(stage, reply),
        pool.is_maintain_step(stage, reply, next),
    ensures
        slot_at(stage) matches Some((current, slot)) ==> match slot_at(next) {
            Some((c, s)) => {
                &&& c == current
                &&& s == slot || s == slot + 1
                &&& s == slot + 1 ==> s < pool.config.max_concurrent_jobs && (next is Spawn
                    <==> !current.contains(pool.name_of(s))) && (next is Check
                    <==> current.contains(pool.name_of(s)))
                &&& s == slot ==> stage is Check && (next is Respawn || next is LoadState)
                    || stage is LoadState && (next is UpdateState || next is RecoverState)
            },
            None => next is ListLatest && slot + 1 == pool.config.max_concurrent_jobs
                || is_broken_off(next) && reply is Failed,
        },
        stage is ListCurrent ==> (reply matches PoolReply::Names(names) ==> match slot_at(next) {
            Some((c, s)) => {
                &&& c == names.deep_view()
                &&& s == 0
                &&& pool.config.max_concurrent_jobs > 0
                &&& next is Spawn <==> !c.contains(pool.name_of(0))
                &&& next is Check <==> c.contains(pool.name_of(0))
            },
            None => next is ListLatest && pool.config.max_concurrent_jobs == 0,
        }),
{
}

/// What becomes of a slot whose container is listed: it is made again where its worker has completed
/// or cannot be checked, and otherwise it is looked up what is remembered of it. What is not remembered
/// at all is remembered from now on, and what is remembered of another worker is put right: with the
/// public key of the worker of the slot, and everything else as it was. What is right is left alone.
pub proof fn lemma_listed_slots_are_kept_right(
    pool: PoolController,
    stage: MaintainStage,
    reply: PoolReply,
    next: MaintainStage,
)
    requires
        pool.maintain_wf(stage),
        maintenance::reply_fits_maintain(stage, reply),
        pool.is_maintain_step(stage, reply, next),
    ensures
        stage matches MaintainStage::Check { slot, .. } ==> {
            &&& slot_at(next) matches Some((_, s)) && s == slot
            &&& reply is Failed || reply == PoolReply::Completed(true) ==> next is Respawn
            &&& reply == PoolReply::Completed(false) ==> next is LoadState
        },
        stage matches MaintainStage::LoadState { slot, .. } ==> match reply {
            PoolReply::State(None) => next matches MaintainStage::RecoverState {
                slot: s,
                worker_pubkey,
                ..
            } && s == slot && worker_pubkey@ == pool.workers@[slot as int].pubkey@,
            PoolReply::State(Some(known)) => {
                let own = pool.workers@[slot as int].pubkey@;
                &&& known.worker_pubkey@ != own ==> (next matches MaintainStage::UpdateState {
                    slot: s,
                    state,
                    ..
                } && s == slot && state.worker_pubkey@ == own && state.slot == known.slot
                    && state.started_at == known.started_at && state.advertised_at
                    == known.advertised_at)
                &&& known.worker_pubkey@ == own ==> !(next is UpdateState) && !(
                next is RecoverState) && !(next is Respawn) && !(next is Done)
            },
            PoolReply::Failed(m) => next matches MaintainStage::Done { result: Err(e) } && e@ == m@,
            _ => true,
        },
        stage is UpdateState && reply is Failed ==> is_broken_off(next),
        stage is Spawn || stage is Respawn || stage is RecoverState ==> !(next is Done),
{
}

impl Round {
    /// Whether the stages follow each other, with the replies that they asked for.
    pub open spec fn wf(self) -> bool {
        &&& self.stages.len() == self.replies.len() + 1
        &&& self.stages[0] is ListCurrent
        &&& forall|k: int| 0 <= k < self.replies.len() ==> #[trigger] self.steps_at(k)
    }

    /// Whether the step at the moment `k` is one.
    pub open spec fn steps_at(self, k: int) -> bool {
        &&& self.pool.maintain_wf(self.stages[k])
        &&& maintenance::reply_fits_maintain(self.stages[k], self.replies[k])
        &&& self.pool.is_maintain_step(self.stages[k], self.replies[k], self.stages[k + 1])
    }

    /// The containers that were listed at the beginning.
    pub open spec fn listed(self) -> Seq<Seq<char>> {
        match self.replies[0] {
            PoolReply::Names(names) => names.deep_view(),
            _ => seq![],
        }
    }

    /// Whether the making of the container of a slot is come to at the moment `i`.
    pub open spec fn makes_at(self, slot: nat, i: int) -> bool {
        self.stages[i] matches MaintainStage::Spawn { slot: s, .. } && s == slot
    }

    /// Whether the check of the worker of a slot is come to at the moment `i`.
    pub open spec fn checks_at(self, slot: nat, i: int) -> bool {
        self.stages[i] matches MaintainStage::Check { slot: s, .. } && s == slot
    }

    /// Whether a slot is looked after at the moment `i`, as its container is listed or not.
    pub open spec fn looks_after_at(self, slot: nat, i: int) -> bool {
        if self.listed().contains(self.pool.name_of(slot)) {
            self.checks_at(slot, i)
        } else {
            self.makes_at(slot, i)
        }
    }

    /// Whether a slot has been looked after by the moment `k`.
    pub open spec fn looked_after_by(self, slot: nat, k: int) -> bool {
        exists|i: int| 0 <= i <= k && #[trigger] self.looks_after_at(slot, i)
    }

    spec fn inv(self, k: int) -> bool {
        match self.stages[k] {
            MaintainStage::ListCurrent => k == 0,
            MaintainStage::Done { result: Err(_) } => true,
            _ => match slot_at(self.stages[k]) {
                Some((current, slot)) => {
                    &&& current == self.listed()
                    &&& slot < self.pool.config.max_concurrent_jobs
                    &&& forall|t: nat| t <= slot ==> #[trigger] self.looked_after_by(t, k)
                },
                None => forall|t: nat|
                    t < self.pool.config.max_concurrent_jobs ==> #[trigger] self.looked_after_by(
                        t,
                        k,
                    ),
            },
        }
    }

    proof fn lemma_inv(self, k: int)
        requires
            self.wf(),
            0 <= k < self.stages.len(),
        ensures
            self.inv(k),
        decreases k,
    {
        if k > 0 {
            let j = k - 1;
            self.lemma_inv(j);
            assert(self.steps_at(j));
            let (stage, reply, next) = (self.stages[j], self.replies[j], self.stages[k]);
            lemma_slots_follow_each_other(self.pool, stage, reply, next);
            assert forall|t: nat| #[trigger] self.looked_after_by(t, j) implies
                self.looked_after_by(t, k) by {
                let i = choose|i: int| 0 <= i <= j && #[trigger] self.looks_after_at(t, i);
                assert(0 <= i <= k && self.looks_after_at(t, i));
            }
            let new = slot_at(next);
            if next is Spawn || next is Check {
                let (_, s) = new->0;
                assert(self.looks_after_at(s, k));
            }
            let last = self.pool.config.max_concurrent_jobs;
            assert forall|t: nat|
                !is_broken_off(next) && t < last && (new matches Some((_, s)) ==> t
                    <= s) implies #[trigger] self.looked_after_by(t, k) by {
                if new matches Some((_, s)) && t == s && (next is Spawn || next is Check) {
                    assert(self.looks_after_at(t, k));
                } else {
                    assert(self.looked_after_by(t, j));
                }
            }
        }
    }
}

/// No slot is left out: in a round of maintenance that ends without a failure, every slot whose
/// container was not listed at the beginning came to the making of its container, and every slot whose
/// container was listed came to the check of its worker.
pub proof fn lemma_every_slot_is_looked_after(round: Round, slot: nat)
    requires
        round.wf(),
        is_over(round.stages.last()),
        slot < round.pool.config.max_concurrent_jobs,
    ensures
        !round.listed().contains(round.pool.name_of(slot)) ==> exists|i: int|
            0 <= i < round.stages.len() && #[trigger] round.makes_at(slot, i),
        round.listed().contains(round.pool.name_of(slot)) ==> exists|i: int|
            0 <= i < round.stages.len() && #[trigger] round.checks_at(slot, i),
{
    let n = round.stages.len() - 1;
    round.lemma_inv(n);
    assert(round.looked_after_by(slot, n));
    let i = choose|i: int| 0 <= i <= n && #[trigger] round.looks_after_at(slot, i);
    assert(round.makes_at(slot, i) || round.checks_at(slot, i));
}

/// Nothing is done to the wrong slot: a container is made only for a slot whose container was not
/// listed, and a worker is checked, made again, or put right in memory only where its container was.
pub proof fn lemma_no_slot_is_mistaken(round: Round, i: int)
    requires
        round.wf(),
        0 <= i < round.stages.len(),
    ensures
        slot_at(round.stages[i]) matches Some((_, slot)) ==> {
            &&& slot < round.pool.config.max_concurrent_jobs
            &&& round.stages[i] is Spawn <==> !round.listed().contains(round.pool.name_of(slot))
        },
    decreases i,
{
    round.lemma_inv(i);
    if i > 0 {
        let j = i - 1;
        lemma_no_slot_is_mistaken(round, j);
        round.lemma_inv(j);
        assert(round.steps_at(j));
        lemma_slots_follow_each_other(
            round.pool,
            round.stages[j],
            round.replies[j],
            round.stages[i],
        );
    }
}

// ---------------------------------------------------------------------------------------------
// Entries
// ---------------------------------------------------------------------------------------------

impl Round {
    /// Whether the entry of a name is removed at the moment `i`.
    pub open spec fn removes_at(self, x: Seq<char>, i: int) -> bool {
        self.stages[i] matches MaintainStage::RemoveEntry { stale, next }
            && stale.deep_view()[next as int] == x
    }

    /// Whether the entry of a name is removed at the moment `k` or before.
    pub open spec fn removed_by(self, x: Seq<char>, k: int) -> bool {
        exists|i: int| 0 <= i <= k && #[trigger] self.removes_at(x, i)
    }

    /// Whether these are the containers and the entries that were listed at the end.
    pub open spec fn lists_at_end(
        self,
        latest: Seq<Seq<char>>,
        entries: Seq<Seq<char>>,
        i: int,
    ) -> bool {
        &&& self.stages[i] matches MaintainStage::ListEntries { latest: l }
        &&& l.deep_view() == latest
        &&& self.replies[i] matches PoolReply::Names(e)
        &&& e.deep_view() == entries
    }

    spec fn removing(self, entries: Seq<Seq<char>>, latest: Seq<Seq<char>>, k: int) -> bool {
        match self.stages[k] {
            MaintainStage::RemoveEntry { stale, next } => {
                &&& next < stale.deep_view().len()
                &&& forall|x: Seq<char>| #[trigger]
                    stale.deep_view().contains(x) <==> entries.contains(x) && !latest.contains(x)
                &&& forall|m: int|
                    0 <= m <= next ==> self.removed_by(#[trigger] stale.deep_view()[m], k)
            },
            MaintainStage::Done { result } => result is Ok ==> forall|x: Seq<char>|
                #[trigger] entries.contains(x) && !latest.contains(x) ==> self.removed_by(x, k),
            _ => false,
        }
    }

    proof fn lemma_removing(
        self,
        latest: Seq<Seq<char>>,
        entries: Seq<Seq<char>>,
        at: int,
        k: int,
    )
        requires
            self.wf(),
            0 <= at < k < self.stages.len(),
            self.lists_at_end(latest, entries, at),
        ensures
            self.removing(entries, latest, k),
        decreases k,
    {
        let j = k - 1;
        assert(self.steps_at(j));
        if j == at {
            let stale = listener::stale_names(entries, latest);
            assert forall|x: Seq<char>| #[trigger] stale.contains(x) <==> entries.contains(x)
                && !latest.contains(x) by {
                listener::lemma_stale_names(entries, latest, x);
            }
            if let MaintainStage::RemoveEntry { stale: v, next } = self.stages[k] {
                assert(v.deep_view() == stale);
                assert(self.removes_at(v.deep_view()[0], k));
            } else {
                assert forall|x: Seq<char>| entries.contains(x) && !latest.contains(x) implies
                    self.removed_by(x, k) by {
                    assert(stale.contains(x));
                }
            }
        } else {
            self.lemma_removing(latest, entries, at, j);
            assert forall|x: Seq<char>| #[trigger] self.removed_by(x, j) implies self.removed_by(
                x,
                k,
            ) by {
                let i = choose|i: int| 0 <= i <= j && #[trigger] self.removes_at(x, i);
                assert(0 <= i <= k && self.removes_at(x, i));
            }
            if let MaintainStage::RemoveEntry { stale, next } = self.stages[j] {
                let s = stale.deep_view();
                if let MaintainStage::RemoveEntry { stale: v, next: m } = self.stages[k] {
                    assert(v.deep_view() == s && m == next + 1);
                    assert(self.removes_at(s[m as int], k));
                    assert forall|i: int| 0 <= i <= m implies self.removed_by(
                        #[trigger] v.deep_view()[i],
                        k,
                    ) by {
                        if i < m {
                            assert(self.removed_by(s[i], j));
                        }
                    }
                } else if let MaintainStage::Done { result } = self.stages[k] {
                    if result is Ok {
                        assert forall|x: Seq<char>|
                            #[trigger] entries.contains(x) && !latest.contains(x) implies
                            self.removed_by(x, k) by {
                            assert(s.contains(x));
                            let m = choose|m: int| 0 <= m < s.len() && s[m] == x;
                            assert(self.removed_by(s[m], j));
                        }
                    }
                }
            }
        }
    }
}

/// Entries without a container are removed, and no others: where a round ends without a failure after
/// containers and entries were listed, every entry without a listed container came to its removal; and
/// whatever came to its removal was an entry without a listed container.
pub proof fn lemma_stale_entries_are_removed(
    round: Round,
    latest: Seq<Seq<char>>,
    entries: Seq<Seq<char>>,
    at: int,
    x: Seq<char>,
)
    requires
        round.wf(),
        0 <= at < round.replies.len(),
        round.lists_at_end(latest, entries, at),
    ensures
        is_over(round.stages.last()) && entries.contains(x) && !latest.contains(x) ==> exists|i: int|
            at < i < round.stages.len() && #[trigger] round.removes_at(x, i),
        forall|i: int|
            at < i < round.stages.len() && #[trigger] round.removes_at(x, i) ==> entries.contains(x)
                && !latest.contains(x),
{
    let n = round.stages.len() - 1;
    round.lemma_removing(latest, entries, at, n);
    assert forall|i: int|
        at < i < round.stages.len() && #[trigger] round.removes_at(x, i) implies entries.contains(x)
        && !latest.contains(x) by {
        round.lemma_removing(latest, entries, at, i);
        if let MaintainStage::RemoveEntry { stale, next } = round.stages[i] {
            assert(stale.deep_view().contains(stale.deep_view()[next as int]));
        }
    }
    if is_over(round.stages.last()) && entries.contains(x) && !latest.contains(x) {
        assert(round.removed_by(x, n));
        let i = choose|i: int| 0 <= i <= n && #[trigger] round.removes_at(x, i);
        if i <= at {
            round.lemma_not_removing_before(at, i);
        }
    }
}

impl Round {
    proof fn lemma_not_removing_before(self, at: int, i: int)
        requires
            self.wf(),
            0 <= i <= at < self.stages.len(),
            self.stages[at] is ListEntries,
        ensures
            !(self.stages[i] is RemoveEntry),
        decreases at - i,
    {
        if i < at {
            self.lemma_not_removing_before(at, i + 1);
            assert(self.steps_at(i));
            if self.stages[i] is RemoveEntry {
                assert(self.stages[i + 1] is Done);
                self.lemma_done_stays(i + 1, at);
            }
        }
    }

    proof fn lemma_done_stays(self, i: int, k: int)
        requires
            self.wf(),
            0 <= i <= k < self.stages.len(),
            self.stages[i] is Done,
        ensures
            self.stages[k] is Done,
        decreases k - i,
    {
        if i < k {
            assert(self.steps_at(i));
            self.lemma_done_stays(i + 1, k);
        }
    }
}

// ---------------------------------------------------------------------------------------------
// Failures
// ---------------------------------------------------------------------------------------------

/// What fails in a round of maintenance: lists that cannot be had, and memory that cannot be read or
/// written, break the round off, and the failure is its result. A worker that cannot be checked is made
/// again, and a container that cannot be made, or not be remembered, does not break the round off.
pub proof fn lemma_failures_break_rounds_off(
    pool: PoolController,
    stage: MaintainStage,
    m: String,
    next: MaintainStage,
)
    requires
        pool.is_maintain_step(stage, PoolReply::Failed(m), next),
    ensures
        stage is ListCurrent || stage is LoadState || stage is UpdateState || stage is ListLatest
            || stage is ListEntries ==> (next matches MaintainStage::Done { result: Err(e) } && e@
            == m@),
        stage is Check ==> next is Respawn,
        stage is Spawn || stage is Respawn || stage is RecoverState ==> !(next is Done),
        stage is RemoveEntry ==> (next matches MaintainStage::Done { result: Err(e) } && e@ == m@),
{
}

/// What fails in a reconciliation ends it, and the failure is its result; but a container that cannot be
/// checked is cleaned up.
pub proof fn lemma_failures_end_reconciliations(
    stage: ReconcileStage,
    m: String,
    next: ReconcileStage,
)
    requires
        listener::is_reconcile_step(stage, PoolReply::Failed(m), next),
        !(stage is Done),
    ensures
        !(stage is Check) ==> (next matches ReconcileStage::Done { result: Err(e) } && e@ == m@),
        stage matches ReconcileStage::Check { pool, next: i } ==> (
        next matches ReconcileStage::CleanPool { pool: p, next: j } && j == i && p.deep_view()
            == pool.deep_view()),
{
}

/// How a reconciliation goes on where nothing fails: containers of the former kind are those whose names
/// begin with `j`; each of them is cleaned up and forgotten, and then the next one; then each container
/// of the pool is checked, cleaned up and forgotten where its worker has completed, and left alone
/// where it has not.
pub proof fn lemma_how_reconciliations_go_on(
    stage: ReconcileStage,
    reply: PoolReply,
    next: ReconcileStage,
)
    requires
        listener::is_reconcile_step(stage, reply, next),
        listener::reply_fits_reconcile(stage, reply),
        !(reply is Failed),
    ensures
        stage matches ReconcileStage::CleanOld { names, next: i } ==> (
        next matches ReconcileStage::ForgetOld { names: n, next: j } && j == i && n.deep_view()
            == names.deep_view()),
        stage matches ReconcileStage::ForgetOld { names, next: i } ==> match next {
            ReconcileStage::CleanOld { names: n, next: j } => j == i + 1 && n.deep_view()
                == names.deep_view() && j < n.deep_view().len(),
            _ => next is ListPool && i + 1 >= names.deep_view().len(),
        },
        stage matches ReconcileStage::Check { pool, next: i } ==> {
            &&& reply == PoolReply::Completed(true) ==> (next matches ReconcileStage::CleanPool {
                pool: p,
                next: j,
            } && j == i && p.deep_view() == pool.deep_view())
            &&& reply == PoolReply::Completed(false) ==> match next {
                ReconcileStage::Check { pool: p, next: j } => j == i + 1 && p.deep_view()
                    == pool.deep_view(),
                ReconcileStage::ListEntries { pool: p } => i + 1 >= pool.deep_view().len()
                    && p.deep_view() == pool.deep_view(),
                _ => false,
            }
        },
        stage matches ReconcileStage::CleanPool { pool, next: i } ==> (
        next matches ReconcileStage::ForgetPool { pool: p, next: j } && j == i && p.deep_view()
            == pool.deep_view()),
        stage matches ReconcileStage::ForgetPool { pool, next: i } ==> match next {
            ReconcileStage::Check { pool: p, next: j } => j == i + 1 && p.deep_view()
                == pool.deep_view(),
            ReconcileStage::ListEntries { pool: p } => i + 1 >= pool.deep_view().len()
                && p.deep_view() == pool.deep_view(),
            _ => false,
        },
{
}

/// The containers of the former kind are picked from a listing by the `j` that their names begin with,
/// in order.
pub proof fn lemma_old_containers_are_picked(a: Seq<Seq<char>>, name: Seq<char>)
    ensures
        name.len() > 0 && name[0] == 'j' ==> listener::old_names(a.push(name))
            == listener::old_names(a).push(name),
        name.len() == 0 || name[0] != 'j' ==> listener::old_names(a.push(name))
            == listener::old_names(a),
        listener::old_names(Seq::<Seq<char>>::empty()).len() == 0,
{
    reveal(Seq::filter);
    reveal_strlit("j");
    assert(a.push(name).drop_last() =~= a);
    assert("j"@ =~= seq!['j']);
    if name.len() > 0 && name[0] == 'j' {
        assert(name.take(1) =~= "j"@);
        assert("j"@.is_prefix_of(name));
    } else if "j"@.is_prefix_of(name) {
        assert(name[0] == "j"@[0]);
    }
}

} // verus!
