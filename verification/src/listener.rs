//! The pool controller: which container of the pool needs what, and in which order.
//!
//! The controller's work is a sequence of steps. Each stage says what has to be done next, and each
//! reply leads to the next stage.

use core::time::Duration;
use vstd::prelude::*;

use crate::clock;
use crate::config::Config;
use crate::container;
use crate::container::ContainerManager;
use crate::event;
use crate::event::{event_is_addressed_to, Event};
use crate::loom;
use crate::loom::{LoadedIdentity, LoadedPool, WorkerIdentity};
use crate::search::{list_contains, starts_with};
use crate::state::ContainerState;
use crate::text;

verus! {

/// The pool: its configuration, its workers, and the host that it runs on.
#[derive(Debug)]
pub struct PoolController {
    pub config: Config,
    pub workers: Vec<WorkerIdentity>,
    pub hostname: String,
}

/// The answer to what a stage asked for.
#[derive(Debug)]
pub enum PoolReply {
    /// It was done.
    Done,
    /// These are the names.
    Names(Vec<String>),
    /// The worker's service has completed, or not.
    Completed(bool),
    /// This is what is remembered.
    State(Option<ContainerState>),
    /// This is what is remembered, and what time it is, in seconds since the epoch.
    StateAt(Option<ContainerState>, u64),
    /// It could not be done.
    Failed(String),
}

/// The slot of the first worker that an event with these tags is addressed to.
pub open spec fn addressed_slot(
    workers: Seq<WorkerIdentity>,
    tags: Seq<Seq<Seq<char>>>,
) -> Option<usize>
    decreases workers.len(),
{
    if workers.len() == 0 {
        None
    } else if event::is_addressed_to(tags, workers[0].pubkey@) {
        Some(workers[0].slot)
    } else {
        addressed_slot(workers.drop_first(), tags)
    }
}

/// Whether there is a worker for every slot, at its place.
pub open spec fn workers_fill_slots(workers: Seq<WorkerIdentity>, slots: nat) -> bool {
    &&& workers.len() >= slots
    &&& forall|i: int| 0 <= i < workers.len() ==> (#[trigger] workers[i]).slot == i
}

/// Whether the secret key of every worker is raw hexadecimal.
pub open spec fn workers_have_raw_keys(workers: Seq<WorkerIdentity>) -> bool {
    forall|i: int|
        0 <= i < workers.len() ==> event::is_raw_hex((#[trigger] workers[i]).keys.secret_key@)
}

/// The names of entries for which there is no container, in order.
pub open spec fn stale_names(entries: Seq<Seq<char>>, containers: Seq<Seq<char>>) -> Seq<
    Seq<char>,
> {
    entries.filter(|n: Seq<char>| !containers.contains(n))
}

/// Finds the entries for which there is no container.
pub fn stale_entries(entries: &Vec<String>, containers: &Vec<String>) -> (r: Vec<String>)
    ensures
        r.deep_view() == stale_names(entries.deep_view(), containers.deep_view()),
{
    let ghost views = entries.deep_view();
    let ghost keep = |n: Seq<char>| !containers.deep_view().contains(n);
    let mut r: Vec<String> = Vec::new();
    let mut i: usize = 0;
    assert(views.take(0).filter(keep) =~= seq![]) by {
        reveal(Seq::filter);
    }
    assert(r.deep_view() =~= seq![]);
    while i < entries.len()
        invariant
            i <= entries@.len(),
            views == entries.deep_view(),
            keep == (|n: Seq<char>| !containers.deep_view().contains(n)),
            r.deep_view() == views.take(i as int).filter(keep),
        decreases entries.len() - i,
    {
        let ghost before = r.deep_view();
        assert(views[i as int] == entries@[i as int]@);
        if !list_contains(containers, entries[i].as_str()) {
            r.push(entries[i].clone());
            assert(r.deep_view() =~= before.push(entries@[i as int]@));
        }
        proof {
            text::lemma_filter_step(views, i as int, keep);
        }
        i = i + 1;
    }
    assert(views.take(i as int) =~= views);
    r
}

/// An entry is stale exactly where it has no container.
pub proof fn lemma_stale_names(
    entries: Seq<Seq<char>>,
    containers: Seq<Seq<char>>,
    name: Seq<char>,
)
    ensures
        stale_names(entries, containers).contains(name) <==> entries.contains(name)
            && !containers.contains(name),
{
    let keep = |n: Seq<char>| !containers.contains(n);
    let stale = stale_names(entries, containers);
    if stale.contains(name) {
        entries.lemma_filter_contains_rev(keep, name);
        let i = choose|i: int| 0 <= i < stale.len() && stale[i] == name;
        entries.lemma_filter_pred(keep, i);
    }
    if entries.contains(name) && !containers.contains(name) {
        let i = choose|i: int| 0 <= i < entries.len() && entries[i] == name;
        entries.lemma_filter_contains(keep, i);
    }
}

impl PoolController {
    /// Whether there is a worker for every slot, at its place, with its key as raw hexadecimal.
    pub open spec fn wf(self) -> bool {
        &&& workers_fill_slots(self.workers@, self.config.max_concurrent_jobs as nat)
        &&& workers_have_raw_keys(self.workers@)
    }

    /// The name of the container of a slot.
    pub open spec fn name_of(self, slot: nat) -> Seq<char> {
        container::container_name(container::text_hash(self.hostname@), slot)
    }

    /// A controller for a pool.
    pub fn new(config: Config, workers: Vec<WorkerIdentity>, hostname: String) -> (r: Self)
        requires
            workers_fill_slots(workers@, config.max_concurrent_jobs as nat),
            workers_have_raw_keys(workers@),
        ensures
            r.wf(),
            r.config == config,
            r.workers == workers,
            r.hostname == hostname,
    {
        PoolController { config, workers, hostname }
    }

    /// The name of the container of a slot.
    pub fn container_name(&self, slot: usize) -> (r: String)
        ensures
            r@ == self.name_of(slot as nat),
    {
        ContainerManager::slot_to_container_name(self.hostname.as_str(), slot)
    }

    /// Finds the slot that an event is addressed to.
    pub fn slot_for_event(&self, event: &Event) -> (r: Option<usize>)
        ensures
            r == addressed_slot(self.workers@, event.tags.deep_view()),
    {
        let mut i: usize = 0;
        assert(self.workers@.skip(0) =~= self.workers@);
        while i < self.workers.len()
            invariant
                i <= self.workers@.len(),
                addressed_slot(self.workers@, event.tags.deep_view()) == addressed_slot(
                    self.workers@.skip(i as int),
                    event.tags.deep_view(),
                ),
            decreases self.workers.len() - i,
        {
            let worker = &self.workers[i];
            assert(self.workers@.skip(i as int)[0] == *worker);
            assert(self.workers@.skip(i as int).drop_first() =~= self.workers@.skip(i + 1));
            if event_is_addressed_to(event, worker.pubkey.as_str()) {
                return Some(worker.slot);
            }
            i = i + 1;
        }
        None
    }

    /// Tells whether the workers have to be advertised again, given how long ago that was last done.
    pub fn advertisements_due(&self, since_last: Option<Duration>) -> (r: bool)
        ensures
            r == match since_last {
                Some(d) => clock::nanos_of_duration(d) >= clock::nanos_of_duration(
                    self.config.advertise_interval,
                ),
                None => true,
            },
    {
        match since_last {
            Some(d) => d.as_nanos() >= self.config.advertise_interval.as_nanos(),
            None => true,
        }
    }

    /// What is remembered of a container once its worker has been advertised.
    pub fn advertised_state(&self, slot: usize, state: ContainerState, now: u64) -> (r:
        ContainerState)
        requires
            slot < self.workers@.len(),
        ensures
            r.slot == state.slot,
            r.started_at == state.started_at,
            r.worker_pubkey@ == self.workers@[slot as int].pubkey@,
            r.advertised_at == Some(now),
    {
        let mut updated = state;
        updated.worker_pubkey = self.workers[slot].pubkey.clone();
        updated.mark_advertised_at(now);
        updated
    }
}

/// Workers that are set up for all slots fill them, and have their keys as raw hexadecimal.
pub proof fn lemma_loaded_workers_fill_slots(pool: LoadedPool, stored: Seq<Option<Seq<char>>>)
    requires
        pool.loaded@.len() == stored.len() <= usize::MAX,
        forall|i: int|
            0 <= i < stored.len() ==> loom::is_loaded(
                #[trigger] pool.loaded@[i],
                i as usize,
                stored[i],
            ),
    ensures
        workers_fill_slots(
            pool.loaded@.map_values(|l: LoadedIdentity| l.identity),
            stored.len(),
        ),
        workers_have_raw_keys(pool.loaded@.map_values(|l: LoadedIdentity| l.identity)),
{
}

/// The slot that an event is addressed to is that of a worker that the event names.
pub proof fn lemma_addressed_slot(workers: Seq<WorkerIdentity>, tags: Seq<Seq<Seq<char>>>)
    ensures
        addressed_slot(workers, tags) is Some <==> exists|i: int|
            0 <= i < workers.len() && event::is_addressed_to(tags, (#[trigger] workers[i]).pubkey@),
        addressed_slot(workers, tags) matches Some(s) ==> exists|i: int|
            0 <= i < workers.len() && (#[trigger] workers[i]).slot == s && event::is_addressed_to(
                tags,
                workers[i].pubkey@,
            ),
    decreases workers.len(),
{
    if workers.len() > 0 {
        let t = workers.drop_first();
        lemma_addressed_slot(t, tags);
        if !event::is_addressed_to(tags, workers[0].pubkey@) {
            if addressed_slot(t, tags) is Some {
                let s = addressed_slot(t, tags)->0;
                let i = choose|i: int|
                    0 <= i < t.len() && (#[trigger] t[i]).slot == s && event::is_addressed_to(
                        tags,
                        t[i].pubkey@,
                    );
                assert(workers[i + 1] == t[i]);
            }
            if exists|i: int|
                0 <= i < workers.len() && event::is_addressed_to(
                    tags,
                    (#[trigger] workers[i]).pubkey@,
                ) {
                let i = choose|i: int|
                    0 <= i < workers.len() && event::is_addressed_to(
                        tags,
                        (#[trigger] workers[i]).pubkey@,
                    );
                assert(t[i - 1] == workers[i]);
            }
        }
    }
}

// ---------------------------------------------------------------------------------------------
// Reconciliation at the start
// ---------------------------------------------------------------------------------------------

/// How far the reconciliation at the start has come.
#[derive(Debug)]
pub enum ReconcileStage {
    /// All containers have to be listed.
    ListAll,
    /// A container of the former kind has to be cleaned up.
    CleanOld { names: Vec<String>, next: usize },
    /// The entry of a container of the former kind has to be removed.
    ForgetOld { names: Vec<String>, next: usize },
    /// The containers of the pool have to be listed.
    ListPool,
    /// A container of the pool has to be checked.
    Check { pool: Vec<String>, next: usize },
    /// A container of the pool has to be cleaned up.
    CleanPool { pool: Vec<String>, next: usize },
    /// The entry of a container of the pool that has been cleaned up has to be removed.
    ForgetPool { pool: Vec<String>, next: usize },
    /// The remembered containers have to be listed.
    ListEntries { pool: Vec<String> },
    /// A stale entry has to be removed.
    RemoveEntry { stale: Vec<String>, next: usize },
    /// The reconciliation is over.
    Done { result: Result<(), String> },
}

/// The names that begin with `j`.
pub open spec fn old_names(names: Seq<Seq<char>>) -> Seq<Seq<char>> {
    names.filter(|n: Seq<char>| "j"@.is_prefix_of(n))
}

fn old_containers(names: &Vec<String>) -> (r: Vec<String>)
    ensures
        r.deep_view() == old_names(names.deep_view()),
{
    let ghost views = names.deep_view();
    let ghost keep = |n: Seq<char>| "j"@.is_prefix_of(n);
    let mut r: Vec<String> = Vec::new();
    let mut i: usize = 0;
    assert(views.take(0).filter(keep) =~= seq![]) by {
        reveal(Seq::filter);
    }
    assert(r.deep_view() =~= seq![]);
    while i < names.len()
        invariant
            i <= names@.len(),
            views == names.deep_view(),
            keep == (|n: Seq<char>| "j"@.is_prefix_of(n)),
            r.deep_view() == views.take(i as int).filter(keep),
        decreases names.len() - i,
    {
        let ghost before = r.deep_view();
        assert(views[i as int] == names@[i as int]@);
        if starts_with(names[i].as_str(), "j") {
            r.push(names[i].clone());
            assert(r.deep_view() =~= before.push(names@[i as int]@));
        }
        proof {
            text::lemma_filter_step(views, i as int, keep);
        }
        i = i + 1;
    }
    assert(views.take(i as int) =~= views);
    r
}

/// Whether a reply is one that the stage asked for. Any other reply to a question leaves it open.
pub open spec fn reply_fits_reconcile(stage: ReconcileStage, reply: PoolReply) -> bool {
    reply is Failed || match stage {
        ReconcileStage::ListAll => reply is Names,
        ReconcileStage::CleanOld { .. } => reply is Done,
        ReconcileStage::ForgetOld { .. } => reply is Done,
        ReconcileStage::ListPool => reply is Names,
        ReconcileStage::Check { .. } => reply is Completed,
        ReconcileStage::CleanPool { .. } => reply is Done,
        ReconcileStage::ForgetPool { .. } => reply is Done,
        ReconcileStage::ListEntries { .. } => reply is Names,
        ReconcileStage::RemoveEntry { .. } => reply is Done,
        ReconcileStage::Done { .. } => reply is Done,
    }
}

/// Whether the reconciliation ends with the failure that came up.
pub open spec fn reconcile_fails(message: Seq<char>, next: ReconcileStage) -> bool {
    next matches ReconcileStage::Done { result } && result matches Err(m) && m@ == message
}

/// Whether the next container of the former kind is cleaned up, or the pool comes next.
pub open spec fn cleans_old_from(
    names: Seq<Seq<char>>,
    from: nat,
    next: ReconcileStage,
) -> bool {
    if from < names.len() {
        next matches ReconcileStage::CleanOld { names: n, next: i } && n.deep_view() == names && i
            == from
    } else {
        next is ListPool
    }
}

/// Whether the next container of the pool is checked, or the entries come next.
pub open spec fn checks_from(pool: Seq<Seq<char>>, from: nat, next: ReconcileStage) -> bool {
    if from < pool.len() {
        next matches ReconcileStage::Check { pool: p, next: i } && p.deep_view() == pool && i
            == from
    } else {
        next matches ReconcileStage::ListEntries { pool: p } && p.deep_view() == pool
    }
}

/// Whether the next stale entry is removed, or the reconciliation is over.
pub open spec fn removes_from(stale: Seq<Seq<char>>, from: nat, next: ReconcileStage) -> bool {
    if from < stale.len() {
        next matches ReconcileStage::RemoveEntry { stale: s, next: i } && s.deep_view() == stale
            && i == from
    } else {
        next matches ReconcileStage::Done { result } && result is Ok
    }
}

/// Whether `next` follows `stage` with this reply.
///
/// Containers of the former kind are cleaned up first. Then each container of the pool is checked,
/// and cleaned up where its worker has completed or the check failed. A container that has been cleaned
/// up loses its entry at once. At last the entries are removed for which no container of the pool was
/// listed.
pub open spec fn is_reconcile_step(
    stage: ReconcileStage,
    reply: PoolReply,
    next: ReconcileStage,
) -> bool {
    match (stage, reply) {
        (ReconcileStage::Done { .. }, _) => next == stage,
        (ReconcileStage::Check { pool, next: i }, PoolReply::Failed(_)) => {
            &&& next matches ReconcileStage::CleanPool { pool: p, next: j }
            &&& p.deep_view() == pool.deep_view() && j == i
        },
        (_, PoolReply::Failed(m)) => reconcile_fails(m@, next),
        (ReconcileStage::ListAll, PoolReply::Names(all)) => cleans_old_from(
            old_names(all.deep_view()),
            0,
            next,
        ),
        (ReconcileStage::CleanOld { names, next: i }, _) => {
            &&& next matches ReconcileStage::ForgetOld { names: n, next: j }
            &&& n.deep_view() == names.deep_view() && j == i
        },
        (ReconcileStage::ForgetOld { names, next: i }, PoolReply::Done) => cleans_old_from(
            names.deep_view(),
            (i + 1) as nat,
            next,
        ),
        (ReconcileStage::ListPool, PoolReply::Names(pool)) => checks_from(
            pool.deep_view(),
            0,
            next,
        ),
        (ReconcileStage::Check { pool, next: i }, PoolReply::Completed(completed)) => if completed {
            &&& next matches ReconcileStage::CleanPool { pool: p, next: j }
            &&& p.deep_view() == pool.deep_view() && j == i
        } else {
            checks_from(pool.deep_view(), (i + 1) as nat, next)
        },
        (ReconcileStage::CleanPool { pool, next: i }, _) => {
            &&& next matches ReconcileStage::ForgetPool { pool: p, next: j }
            &&& p.deep_view() == pool.deep_view() && j == i
        },
        (ReconcileStage::ForgetPool { pool, next: i }, PoolReply::Done) => checks_from(
            pool.deep_view(),
            (i + 1) as nat,
            next,
        ),
        (ReconcileStage::ListEntries { pool }, PoolReply::Names(entries)) => removes_from(
            stale_names(entries.deep_view(), pool.deep_view()),
            0,
            next,
        ),
        (ReconcileStage::RemoveEntry { stale, next: i }, PoolReply::Done) => removes_from(
            stale.deep_view(),
            (i + 1) as nat,
            next,
        ),
        _ => next == stage,
    }
}

/// The place after `place` in a list of `len` items, and `len` where there is none.
pub fn next_place(place: usize, len: usize) -> (r: usize)
    ensures
        r == if place < len {
            place + 1
        } else {
            len as int
        },
{
    if place < len {
        place + 1
    } else {
        len
    }
}

fn clean_old_from(names: Vec<String>, from: usize) -> (r: ReconcileStage)
    ensures
        cleans_old_from(names.deep_view(), from as nat, r),
{
    if from < names.len() {
        ReconcileStage::CleanOld { names, next: from }
    } else {
        ReconcileStage::ListPool
    }
}

fn check_from(pool: Vec<String>, from: usize) -> (r: ReconcileStage)
    ensures
        checks_from(pool.deep_view(), from as nat, r),
{
    if from < pool.len() {
        ReconcileStage::Check { pool, next: from }
    } else {
        ReconcileStage::ListEntries { pool }
    }
}

fn remove_from(stale: Vec<String>, from: usize) -> (r: ReconcileStage)
    ensures
        removes_from(stale.deep_view(), from as nat, r),
{
    if from < stale.len() {
        ReconcileStage::RemoveEntry { stale, next: from }
    } else {
        ReconcileStage::Done { result: Ok(()) }
    }
}

/// Whether the place in a list is one of its places.
pub open spec fn reconcile_wf(stage: ReconcileStage) -> bool {
    match stage {
        ReconcileStage::CleanOld { names, next } => next < names@.len(),
        ReconcileStage::ForgetOld { names, next } => next < names@.len(),
        ReconcileStage::Check { pool, next } => next < pool@.len(),
        ReconcileStage::CleanPool { pool, next } => next < pool@.len(),
        ReconcileStage::ForgetPool { pool, next } => next < pool@.len(),
        ReconcileStage::RemoveEntry { stale, next } => next < stale@.len(),
        _ => true,
    }
}

impl PoolController {
    /// Begins the reconciliation at the start.
    pub fn reconcile_on_startup(&self) -> (r: ReconcileStage)
        ensures
            r is ListAll,
            reconcile_wf(r),
    {
        ReconcileStage::ListAll
    }

    /// Goes on with the reconciliation when what had to be done has been answered.
    pub fn resume_reconcile(&self, stage: ReconcileStage, reply: PoolReply) -> (r: ReconcileStage)
        ensures
            is_reconcile_step(stage, reply, r),
            reconcile_wf(stage) ==> reconcile_wf(r),
    {
        match (stage, reply) {
            (ReconcileStage::Done { result }, _) => ReconcileStage::Done { result },
            (ReconcileStage::Check { pool, next }, PoolReply::Failed(_)) =>
                ReconcileStage::CleanPool { pool, next },
            (_, PoolReply::Failed(m)) => ReconcileStage::Done { result: Err(m) },
            (ReconcileStage::ListAll, PoolReply::Names(all)) => {
                let names = old_containers(&all);
                clean_old_from(names, 0)
            },
            (ReconcileStage::CleanOld { names, next }, _) => ReconcileStage::ForgetOld {
                names,
                next,
            },
            (ReconcileStage::ForgetOld { names, next }, PoolReply::Done) => {
                let from: usize = next_place(next, names.len());
                clean_old_from(names, from)
            },
            (ReconcileStage::ListPool, PoolReply::Names(pool)) => check_from(pool, 0),
            (ReconcileStage::Check { pool, next }, PoolReply::Completed(completed)) => {
                if completed {
                    ReconcileStage::CleanPool { pool, next }
                } else {
                    let from: usize = next_place(next, pool.len());
                    check_from(pool, from)
                }
            },
            (ReconcileStage::CleanPool { pool, next }, _) => ReconcileStage::ForgetPool {
                pool,
                next,
            },
            (ReconcileStage::ForgetPool { pool, next }, PoolReply::Done) => {
                let from: usize = next_place(next, pool.len());
                check_from(pool, from)
            },
            (ReconcileStage::ListEntries { pool }, PoolReply::Names(entries)) => {
                let stale = stale_entries(&entries, &pool);
                remove_from(stale, 0)
            },
            (ReconcileStage::RemoveEntry { stale, next }, PoolReply::Done) => {
                let from: usize = next_place(next, stale.len());
                remove_from(stale, from)
            },
            (stage, _) => stage,
        }
    }
}

/// How many kinds of stages of the reconciliation may still come.
pub open spec fn reconcile_stages_left(stage: ReconcileStage) -> nat {
    match stage {
        ReconcileStage::ListAll => 6,
        ReconcileStage::CleanOld { .. } => 5,
        ReconcileStage::ForgetOld { .. } => 5,
        ReconcileStage::ListPool => 4,
        ReconcileStage::Check { .. } => 3,
        ReconcileStage::CleanPool { .. } => 3,
        ReconcileStage::ForgetPool { .. } => 3,
        ReconcileStage::ListEntries { .. } => 2,
        ReconcileStage::RemoveEntry { .. } => 1,
        ReconcileStage::Done { .. } => 0,
    }
}

/// How much is left to do in a list: three for each container that is still to be checked and may have
/// to be cleaned up and forgotten, two for each of the former kind, and one for each entry.
pub open spec fn reconcile_items_left(stage: ReconcileStage) -> int {
    match stage {
        ReconcileStage::CleanOld { names, next } => 2 * (names@.len() - next),
        ReconcileStage::ForgetOld { names, next } => 2 * (names@.len() - next) - 1,
        ReconcileStage::Check { pool, next } => 3 * (pool@.len() - next),
        ReconcileStage::CleanPool { pool, next } => 3 * (pool@.len() - next) - 1,
        ReconcileStage::ForgetPool { pool, next } => 3 * (pool@.len() - next) - 2,
        ReconcileStage::RemoveEntry { stale, next } => stale@.len() - next,
        _ => 0,
    }
}

/// The reconciliation ends: every step leads to a later stage, or leaves less to do in it.
pub proof fn lemma_reconciliation_ends(
    stage: ReconcileStage,
    reply: PoolReply,
    next: ReconcileStage,
)
    requires
        !(stage is Done),
        reconcile_wf(stage),
        reply_fits_reconcile(stage, reply),
        is_reconcile_step(stage, reply, next),
    ensures
        reconcile_stages_left(next) < reconcile_stages_left(stage) || (reconcile_stages_left(next)
            == reconcile_stages_left(stage) && 0 <= reconcile_items_left(next)
            < reconcile_items_left(stage)),
{
    match (stage, next) {
        (ReconcileStage::CleanOld { names, .. }, ReconcileStage::ForgetOld { names: n, .. }) => {
            assert(names.deep_view().len() == n.deep_view().len());
        },
        (ReconcileStage::ForgetOld { names, .. }, ReconcileStage::CleanOld { names: n, .. }) => {
            assert(names.deep_view().len() == n.deep_view().len());
        },
        (ReconcileStage::Check { pool, .. }, ReconcileStage::Check { pool: p, .. }) => {
            assert(pool.deep_view().len() == p.deep_view().len());
        },
        (ReconcileStage::Check { pool, .. }, ReconcileStage::CleanPool { pool: p, .. }) => {
            assert(pool.deep_view().len() == p.deep_view().len());
        },
        (ReconcileStage::CleanPool { pool, .. }, ReconcileStage::ForgetPool { pool: p, .. }) => {
            assert(pool.deep_view().len() == p.deep_view().len());
        },
        (ReconcileStage::ForgetPool { pool, .. }, ReconcileStage::Check { pool: p, .. }) => {
            assert(pool.deep_view().len() == p.deep_view().len());
        },
        (ReconcileStage::RemoveEntry { stale, .. }, ReconcileStage::RemoveEntry {
            stale: s,
            ..
        }) => {
            assert(stale.deep_view().len() == s.deep_view().len());
        },
        _ => {},
    }
}

/// Of the listed containers, those that are cleaned up as being of the former kind are exactly those
/// with a job number: no container of the pool is among them.
pub proof fn lemma_old_containers_are_job_containers(output: Seq<char>, name: Seq<char>)
    ensures
        old_names(container::all_containers(output)).contains(name)
            <==> container::all_containers(output).contains(name) && container::is_job_name(name),
        old_names(container::all_containers(output)).contains(name) ==> !container::is_pool_name(
            name,
        ),
{
    reveal_strlit("j");
    let all = container::all_containers(output);
    let keep = |n: Seq<char>| "j"@.is_prefix_of(n);
    let known = |n: Seq<char>| container::is_pool_name(n) || container::is_job_name(n);
    let old = old_names(all);
    if all.contains(name) {
        let i = choose|i: int| 0 <= i < all.len() && all[i] == name;
        container::listed(output).lemma_filter_pred(known, i);
        if "j"@.is_prefix_of(name) {
            assert(name[0] == "j"@[0]);
            if container::is_pool_name(name) {
                crate::search::lemma_index_of_text(name, "-r"@);
                assert(text::is_hex_digit(name.take(5)[0]));
            }
            all.lemma_filter_contains(keep, i);
        }
        if container::is_job_name(name) {
            assert(name.take(1) =~= "j"@);
            assert("j"@.is_prefix_of(name));
            all.lemma_filter_contains(keep, i);
        }
    }
    if old.contains(name) {
        all.lemma_filter_contains_rev(keep, name);
        let i = choose|i: int| 0 <= i < old.len() && old[i] == name;
        all.lemma_filter_pred(keep, i);
    }
}

} // verus!
