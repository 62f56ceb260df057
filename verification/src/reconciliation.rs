//! What the reconciliation at the start leaves behind.
//!
//! A reconciliation is looked at as a whole here: the stages that it went through, the replies that it
//! got, and the names that had an entry at each moment.

use vstd::prelude::*;

use crate::listener;
use crate::listener::{PoolReply, ReconcileStage};

verus! {

/// A reconciliation from its beginning on: its stages, the replies, and the names that had an entry
/// when the stage was come to.
pub struct Reconciliation {
    pub stages: Seq<ReconcileStage>,
    pub replies: Seq<PoolReply>,
    pub entries: Seq<Set<Seq<char>>>,
}

/// The container that is cleaned up at a stage.
pub open spec fn cleaned_name(stage: ReconcileStage) -> Option<Seq<char>> {
    match stage {
        ReconcileStage::CleanOld { names, next } => Some(names.deep_view()[next as int]),
        ReconcileStage::CleanPool { pool, next } => Some(pool.deep_view()[next as int]),
        _ => None,
    }
}

/// The container that has been cleaned up, and whose entry is removed at a stage.
pub open spec fn pending_name(stage: ReconcileStage) -> Option<Seq<char>> {
    match stage {
        ReconcileStage::ForgetOld { names, next } => Some(names.deep_view()[next as int]),
        ReconcileStage::ForgetPool { pool, next } => Some(pool.deep_view()[next as int]),
        _ => None,
    }
}

/// The name whose entry is removed at a stage.
pub open spec fn forgotten_name(stage: ReconcileStage) -> Option<Seq<char>> {
    match stage {
        ReconcileStage::RemoveEntry { stale, next } => Some(stale.deep_view()[next as int]),
        _ => pending_name(stage),
    }
}

/// The names that have an entry when a stage has been answered.
pub open spec fn entries_after(
    stage: ReconcileStage,
    reply: PoolReply,
    entries: Set<Seq<char>>,
) -> Set<Seq<char>> {
    match forgotten_name(stage) {
        Some(name) => if reply is Done {
            entries.remove(name)
        } else {
            entries
        },
        None => entries,
    }
}

/// Whether a list of the entries is that of the names that have one.
pub open spec fn lists_entries(
    stage: ReconcileStage,
    reply: PoolReply,
    entries: Set<Seq<char>>,
) -> bool {
    match (stage, reply) {
        (ReconcileStage::ListEntries { .. }, PoolReply::Names(names)) => forall|x: Seq<char>|
            #[trigger] names.deep_view().contains(x) <==> entries.contains(x),
        _ => true,
    }
}

/// Whether the reconciliation has ended with success.
pub open spec fn has_succeeded(stage: ReconcileStage) -> bool {
    stage matches ReconcileStage::Done { result } && result is Ok
}

/// Whether the reconciliation has ended with a failure.
pub open spec fn has_failed(stage: ReconcileStage) -> bool {
    stage matches ReconcileStage::Done { result } && result is Err
}

impl Reconciliation {
    /// Whether the stages follow each other, with the replies that they asked for, and the entries
    /// change as the stages say.
    pub open spec fn wf(self) -> bool {
        &&& self.stages.len() == self.replies.len() + 1
        &&& self.entries.len() == self.stages.len()
        &&& self.stages[0] is ListAll
        &&& forall|k: int| 0 <= k < self.replies.len() ==> #[trigger] self.steps_at(k)
    }

    /// Whether the step at the moment `k` is one.
    pub open spec fn steps_at(self, k: int) -> bool {
        &&& listener::reply_fits_reconcile(self.stages[k], self.replies[k])
        &&& listener::is_reconcile_step(self.stages[k], self.replies[k], self.stages[k + 1])
        &&& lists_entries(self.stages[k], self.replies[k], self.entries[k])
        &&& self.entries[k + 1] == entries_after(
            self.stages[k],
            self.replies[k],
            self.entries[k],
        )
    }

    /// Whether a container is cleaned up at the moment `i`.
    pub open spec fn cleans_at(self, x: Seq<char>, i: int) -> bool {
        cleaned_name(self.stages[i]) == Some(x)
    }

    /// Whether a container was cleaned up before the moment `k`.
    pub open spec fn cleaned_before(self, x: Seq<char>, k: int) -> bool {
        exists|i: int| 0 <= i < k && #[trigger] self.cleans_at(x, i)
    }

    /// Whether a container of the pool is checked at the moment `i`.
    pub open spec fn checks_at(self, x: Seq<char>, i: int) -> bool {
        self.stages[i] matches ReconcileStage::Check { pool, next }
            && pool.deep_view()[next as int] == x
    }

    /// Whether a container of the pool is found to be active at the moment `i`.
    pub open spec fn is_active_at(self, x: Seq<char>, i: int) -> bool {
        self.checks_at(x, i) && self.passes_at(i)
    }

    /// Whether a container of the pool was found to be active before the moment `k`.
    pub open spec fn active_before(self, x: Seq<char>, k: int) -> bool {
        exists|i: int| 0 <= i < k && #[trigger] self.is_active_at(x, i)
    }

    /// Whether a container of the pool that is checked at the moment `i` is found to be active.
    pub open spec fn passes_at(self, i: int) -> bool {
        self.replies[i] == PoolReply::Completed(false)
    }

    /// Whether the worker of a container of the pool is found to have completed at the moment `i`, or
    /// cannot be checked.
    pub open spec fn fails_at(self, x: Seq<char>, i: int) -> bool {
        self.checks_at(x, i) && !self.passes_at(i)
    }

    /// Whether the worker of a container of the pool was found to have completed before the moment `k`,
    /// or could not be checked.
    pub open spec fn failed_before(self, x: Seq<char>, k: int) -> bool {
        exists|i: int| 0 <= i < k && #[trigger] self.fails_at(x, i)
    }

    /// Whether a container was found to be active, or cleaned up, before the moment `k`.
    pub open spec fn settled_before(self, x: Seq<char>, k: int) -> bool {
        self.active_before(x, k) || self.cleaned_before(x, k)
    }

    /// Whether a container of the former kind is listed at the moment `i`.
    pub open spec fn lists_old_at(self, x: Seq<char>, i: int) -> bool {
        &&& self.stages[i] is ListAll
        &&& self.replies[i] matches PoolReply::Names(all)
        &&& listener::old_names(all.deep_view()).contains(x)
    }

    /// Whether a container of the former kind was listed before the moment `k`.
    pub open spec fn old_listed_before(self, x: Seq<char>, k: int) -> bool {
        exists|i: int| 0 <= i < k && #[trigger] self.lists_old_at(x, i)
    }

    /// Whether the pool is listed at the moment `i`.
    pub open spec fn lists_pool_at(self, p: Seq<Seq<char>>, i: int) -> bool {
        &&& self.stages[i] is ListPool
        &&& self.replies[i] matches PoolReply::Names(names)
        &&& names.deep_view() == p
    }

    /// Whether the pool was listed before the moment `k`.
    pub open spec fn pool_listed_before(self, p: Seq<Seq<char>>, k: int) -> bool {
        exists|i: int| 0 <= i < k && #[trigger] self.lists_pool_at(p, i)
    }

    /// Whether a name was not in the list of the pool before the moment `k`.
    pub open spec fn unlisted_before(self, x: Seq<char>, k: int) -> bool {
        exists|p: Seq<Seq<char>>| #[trigger] self.pool_listed_before(p, k) && !p.contains(x)
    }

    // What is known at the moment `k`.

    spec fn inv_old(self, k: int) -> bool {
        &&& self.stages[k] is ListAll ==> k == 0
        &&& forall|x: Seq<char>| #[trigger]
            self.cleaned_before(x, k) ==> !self.entries[k].contains(x) || pending_name(
                self.stages[k],
            ) == Some(x)
        &&& pending_name(self.stages[k]) matches Some(x) ==> self.cleaned_before(x, k)
        &&& match self.stages[k] {
            ReconcileStage::ListAll => true,
            ReconcileStage::CleanOld { names, next } => self.inv_names(names.deep_view(), next, k),
            ReconcileStage::ForgetOld { names, next } => self.inv_names(names.deep_view(), next, k),
            _ => forall|x: Seq<char>| #[trigger]
                self.old_listed_before(x, k) ==> self.cleaned_before(x, k),
        }
    }

    spec fn inv_names(self, names: Seq<Seq<char>>, next: usize, k: int) -> bool {
        &&& next < names.len()
        &&& forall|x: Seq<char>| #[trigger] self.old_listed_before(x, k) ==> names.contains(x)
        &&& forall|j: int| 0 <= j < next ==> self.cleaned_before(#[trigger] names[j], k)
    }

    spec fn inv_pool(self, k: int) -> bool {
        match self.stages[k] {
            ReconcileStage::ListAll => self.inv_no_pool(k),
            ReconcileStage::CleanOld { .. } => self.inv_no_pool(k),
            ReconcileStage::ForgetOld { .. } => self.inv_no_pool(k),
            ReconcileStage::ListPool => self.inv_no_pool(k),
            ReconcileStage::Check { pool, next } => next < pool.deep_view().len()
                && self.inv_checked(pool.deep_view(), next as int, k),
            ReconcileStage::CleanPool { pool, next } => next < pool.deep_view().len()
                && self.inv_checked(pool.deep_view(), next as int, k),
            ReconcileStage::ForgetPool { pool, next } => next < pool.deep_view().len()
                && self.inv_checked(pool.deep_view(), next as int, k),
            ReconcileStage::ListEntries { pool } => self.inv_checked(
                pool.deep_view(),
                pool.deep_view().len() as int,
                k,
            ),
            ReconcileStage::RemoveEntry { stale, next } => {
                &&& next < stale.deep_view().len()
                &&& self.inv_settled(k)
                &&& forall|j: int|
                    0 <= j < stale.deep_view().len() ==> self.unlisted_before(
                        #[trigger] stale.deep_view()[j],
                        k,
                    )
                &&& forall|x: Seq<char>| #[trigger]
                    self.entries[k].contains(x) ==> self.active_before(x, k)
                        || stale.deep_view().skip(next as int).contains(x)
            },
            ReconcileStage::Done { .. } => {
                &&& self.inv_settled(k)
                &&& forall|x: Seq<char>| #[trigger]
                    self.entries[k].contains(x) ==> self.active_before(x, k)
            },
        }
    }

    spec fn inv_no_pool(self, k: int) -> bool {
        forall|p: Seq<Seq<char>>| !#[trigger] self.pool_listed_before(p, k)
    }

    spec fn inv_checked(self, pool: Seq<Seq<char>>, count: int, k: int) -> bool {
        &&& self.pool_listed_before(pool, k)
        &&& forall|p: Seq<Seq<char>>| #[trigger] self.pool_listed_before(p, k) ==> p == pool
        &&& forall|j: int| 0 <= j < count ==> self.settled_before(#[trigger] pool[j], k)
    }

    spec fn inv_settled(self, k: int) -> bool {
        forall|p: Seq<Seq<char>>, x: Seq<char>|
            #[trigger] self.pool_listed_before(p, k) && #[trigger] p.contains(x)
                ==> self.settled_before(x, k)
    }

    spec fn inv_cleaned(self, k: int) -> bool {
        &&& forall|x: Seq<char>| #[trigger]
            self.cleaned_before(x, k) ==> self.old_listed_before(x, k) || self.failed_before(x, k)
        &&& match self.stages[k] {
            ReconcileStage::CleanOld { names, .. } => self.inv_listed(names.deep_view(), k),
            ReconcileStage::ForgetOld { names, .. } => self.inv_listed(names.deep_view(), k),
            ReconcileStage::CleanPool { pool, next } => self.failed_before(
                pool.deep_view()[next as int],
                k,
            ),
            _ => true,
        }
    }

    spec fn inv_listed(self, names: Seq<Seq<char>>, k: int) -> bool {
        forall|j: int| 0 <= j < names.len() ==> self.old_listed_before(#[trigger] names[j], k)
    }

    spec fn inv_kept(self, k: int) -> bool {
        forall|x: Seq<char>| #[trigger]
            self.entries[0].contains(x) && !self.entries[k].contains(x) ==> self.cleaned_before(x, k)
                || self.unlisted_before(x, k)
    }

    /// What holds before a moment holds before the next one, and what is new comes from the last step.
    proof fn lemma_moments(self, k: int)
        requires
            k >= 0,
        ensures
            forall|x: Seq<char>| #[trigger]
                self.cleaned_before(x, k + 1) <==> self.cleaned_before(x, k) || self.cleans_at(x, k),
            forall|x: Seq<char>| #[trigger]
                self.active_before(x, k + 1) <==> self.active_before(x, k) || self.is_active_at(
                    x,
                    k,
                ),
            forall|x: Seq<char>| #[trigger]
                self.old_listed_before(x, k + 1) <==> self.old_listed_before(x, k)
                    || self.lists_old_at(x, k),
            forall|p: Seq<Seq<char>>| #[trigger]
                self.pool_listed_before(p, k + 1) <==> self.pool_listed_before(p, k)
                    || self.lists_pool_at(p, k),
    {
        assert forall|x: Seq<char>| #[trigger]
            self.cleaned_before(x, k + 1) <==> self.cleaned_before(x, k) || self.cleans_at(x, k) by {
            if self.cleaned_before(x, k) {
                let i = choose|i: int| 0 <= i < k && #[trigger] self.cleans_at(x, i);
                assert(0 <= i < k + 1 && self.cleans_at(x, i));
            }
        }
        assert forall|x: Seq<char>| #[trigger]
            self.active_before(x, k + 1) <==> self.active_before(x, k) || self.is_active_at(
                x,
                k,
            ) by {
            if self.active_before(x, k) {
                let i = choose|i: int| 0 <= i < k && #[trigger] self.is_active_at(x, i);
                assert(0 <= i < k + 1 && self.is_active_at(x, i));
            }
        }
        assert forall|x: Seq<char>| #[trigger]
            self.old_listed_before(x, k + 1) <==> self.old_listed_before(x, k)
                || self.lists_old_at(x, k) by {
            if self.old_listed_before(x, k) {
                let i = choose|i: int| 0 <= i < k && #[trigger] self.lists_old_at(x, i);
                assert(0 <= i < k + 1 && self.lists_old_at(x, i));
            }
        }
        assert forall|p: Seq<Seq<char>>| #[trigger]
            self.pool_listed_before(p, k + 1) <==> self.pool_listed_before(p, k)
                || self.lists_pool_at(p, k) by {
            if self.pool_listed_before(p, k) {
                let i = choose|i: int| 0 <= i < k && #[trigger] self.lists_pool_at(p, i);
                assert(0 <= i < k + 1 && self.lists_pool_at(p, i));
            }
        }
    }

    proof fn lemma_inv_old(self, k: int)
        requires
            self.wf(),
            0 <= k < self.stages.len(),
            !has_failed(self.stages[k]),
        ensures
            self.inv_old(k),
        decreases k,
    {
        if k > 0 {
            let j = k - 1;
            assert(self.steps_at(j));
            self.lemma_inv_old(j);
            self.lemma_moments(j);
            match self.stages[j] {
                ReconcileStage::ListAll => {
                    assert(forall|x: Seq<char>| !#[trigger] self.old_listed_before(x, j));
                },
                ReconcileStage::ForgetOld { names, next } => {
                    let n = names.deep_view();
                    assert forall|x: Seq<char>| n.contains(x) && next + 1 >= n.len() implies
                        self.cleaned_before(x, k) by {
                        let m = choose|m: int| 0 <= m < n.len() && n[m] == x;
                        if m < next {
                            assert(self.cleaned_before(n[m], j));
                        }
                    }
                },
                _ => {},
            }
        }
    }

    proof fn lemma_inv_pool(self, k: int)
        requires
            self.wf(),
            0 <= k < self.stages.len(),
            !has_failed(self.stages[k]),
        ensures
            self.inv_pool(k),
        decreases k,
    {
        if k > 0 {
            let j = k - 1;
            assert(self.steps_at(j));
            self.lemma_inv_pool(j);
            self.lemma_inv_old(j);
            self.lemma_moments(j);
            match self.stages[j] {
                ReconcileStage::ListEntries { pool } => {
                    let p = pool.deep_view();
                    if let PoolReply::Names(names) = self.replies[j] {
                        let all = names.deep_view();
                        let stale = listener::stale_names(all, p);
                        assert forall|x: Seq<char>| #[trigger]
                            self.entries[k].contains(x) implies self.active_before(x, k)
                            || stale.contains(x) by {
                            assert(all.contains(x));
                            listener::lemma_stale_names(all, p, x);
                            if p.contains(x) {
                                let m = choose|m: int| 0 <= m < p.len() && p[m] == x;
                                assert(self.settled_before(p[m], j));
                            }
                        }
                        assert forall|m: int| 0 <= m < stale.len() implies self.unlisted_before(
                            #[trigger] stale[m],
                            k,
                        ) by {
                            listener::lemma_stale_names(all, p, stale[m]);
                            assert(stale.contains(stale[m]));
                            assert(self.pool_listed_before(p, k) && !p.contains(stale[m]));
                        }
                        if let ReconcileStage::RemoveEntry { stale: v, next } = self.stages[k] {
                            assert(v.deep_view() == stale && next == 0);
                            assert(v.deep_view().skip(next as int) =~= stale);
                            assert forall|m: int|
                                0 <= m < v.deep_view().len() implies self.unlisted_before(
                                #[trigger] v.deep_view()[m],
                                k,
                            ) by {
                                assert(self.unlisted_before(stale[m], k));
                            }
                        }
                        assert(self.inv_settled(k)) by {
                            assert forall|q: Seq<Seq<char>>, x: Seq<char>|
                                #[trigger] self.pool_listed_before(q, k) && #[trigger] q.contains(
                                    x,
                                ) implies self.settled_before(x, k) by {
                                assert(q == p);
                                let m = choose|m: int| 0 <= m < p.len() && p[m] == x;
                                assert(self.settled_before(p[m], j));
                            }
                        }
                    }
                },
                ReconcileStage::RemoveEntry { stale, next } => {
                    let s = stale.deep_view();
                    assert forall|x: Seq<char>| #[trigger]
                        self.entries[k].contains(x) implies self.active_before(x, k) || s.skip(
                        next + 1,
                    ).contains(x) by {
                        assert(self.entries[j].contains(x));
                        if !self.active_before(x, j) {
                            let rest = s.skip(next as int);
                            let m = choose|m: int| 0 <= m < rest.len() && rest[m] == x;
                            assert(m > 0);
                            assert(s.skip(next + 1)[m - 1] == x);
                        }
                    }
                    assert forall|m: int| 0 <= m < s.len() implies self.unlisted_before(
                        #[trigger] s[m],
                        k,
                    ) by {
                        assert(self.unlisted_before(s[m], j));
                        let p = choose|p: Seq<Seq<char>>| #[trigger]
                            self.pool_listed_before(p, j) && !p.contains(s[m]);
                        assert(self.pool_listed_before(p, k));
                    }
                    assert(self.inv_settled(k)) by {
                        assert forall|q: Seq<Seq<char>>, x: Seq<char>|
                            #[trigger] self.pool_listed_before(q, k) && #[trigger] q.contains(
                                x,
                            ) implies self.settled_before(x, k) by {
                            assert(self.pool_listed_before(q, j));
                            assert(self.settled_before(x, j));
                        }
                    }
                },
                ReconcileStage::Done { .. } => {
                    assert(self.inv_settled(k)) by {
                        assert forall|q: Seq<Seq<char>>, x: Seq<char>|
                            #[trigger] self.pool_listed_before(q, k) && #[trigger] q.contains(
                                x,
                            ) implies self.settled_before(x, k) by {
                            assert(self.pool_listed_before(q, j));
                            assert(self.settled_before(x, j));
                        }
                    }
                },
                ReconcileStage::Check { pool, next } => {
                    let p = pool.deep_view();
                    assert(self.pool_listed_before(p, k));
                    assert forall|m: int|
                        0 <= m < next implies self.settled_before(#[trigger] p[m], k) by {
                        assert(self.settled_before(p[m], j));
                    }
                    if self.replies[j] == PoolReply::Completed(false) {
                        assert(self.is_active_at(p[next as int], j));
                    }
                },
                ReconcileStage::CleanPool { pool, next } => {
                    let p = pool.deep_view();
                    assert(self.pool_listed_before(p, k));
                    assert forall|m: int|
                        0 <= m < next implies self.settled_before(#[trigger] p[m], k) by {
                        assert(self.settled_before(p[m], j));
                    }
                },
                ReconcileStage::ForgetPool { pool, next } => {
                    let p = pool.deep_view();
                    assert(self.pool_listed_before(p, k));
                    assert forall|m: int|
                        0 <= m < next implies self.settled_before(#[trigger] p[m], k) by {
                        assert(self.settled_before(p[m], j));
                    }
                    assert(self.cleaned_before(p[next as int], j));
                },
                ReconcileStage::ListPool => {
                    if let PoolReply::Names(names) = self.replies[j] {
                        assert(self.lists_pool_at(names.deep_view(), j));
                        assert(self.pool_listed_before(names.deep_view(), k));
                    }
                },
                _ => {},
            }
        }
    }

    /// The pool is listed once: whatever was listed before a moment is the same list.
    pub proof fn lemma_pool_is_listed_once(self, k: int)
        requires
            self.wf(),
            0 <= k < self.stages.len(),
        ensures
            forall|p: Seq<Seq<char>>, q: Seq<Seq<char>>|
                #[trigger] self.pool_listed_before(p, k) && #[trigger] self.pool_listed_before(q, k)
                    ==> p == q,
        decreases k,
    {
        if k > 0 {
            let j = k - 1;
            assert(self.steps_at(j));
            self.lemma_pool_is_listed_once(j);
            self.lemma_moments(j);
            if self.stages[j] is ListPool {
                self.lemma_inv_pool(j);
            }
        }
    }

    /// The pool has been listed when a reconciliation has succeeded, or removes stale entries.
    proof fn lemma_pool_is_listed(self, k: int) -> (p: Seq<Seq<char>>)
        requires
            self.wf(),
            0 <= k < self.stages.len(),
            has_succeeded(self.stages[k]) || self.stages[k] is RemoveEntry,
        ensures
            self.pool_listed_before(p, k),
        decreases k,
    {
        let j = k - 1;
        assert(self.steps_at(j));
        self.lemma_moments(j);
        match self.stages[j] {
            ReconcileStage::ListEntries { pool } => {
                self.lemma_inv_pool(j);
                pool.deep_view()
            },
            _ => self.lemma_pool_is_listed(j),
        }
    }

    proof fn lemma_inv_kept(self, k: int)
        requires
            self.wf(),
            0 <= k < self.stages.len(),
            !has_failed(self.stages[k]),
        ensures
            self.inv_kept(k),
        decreases k,
    {
        if k > 0 {
            let j = k - 1;
            assert(self.steps_at(j));
            self.lemma_inv_kept(j);
            self.lemma_inv_old(j);
            self.lemma_inv_pool(j);
            self.lemma_moments(j);
            assert forall|x: Seq<char>| #[trigger]
                self.entries[0].contains(x) && !self.entries[k].contains(x) implies
                self.cleaned_before(x, k) || self.unlisted_before(x, k) by {
                if self.entries[j].contains(x) {
                    assert(forgotten_name(self.stages[j]) == Some(x));
                    if let ReconcileStage::RemoveEntry { stale, next } = self.stages[j] {
                        assert(self.unlisted_before(stale.deep_view()[next as int], j));
                    }
                }
                if self.unlisted_before(x, j) {
                    let p = choose|p: Seq<Seq<char>>| #[trigger]
                        self.pool_listed_before(p, j) && !p.contains(x);
                    assert(self.pool_listed_before(p, k));
                }
            }
        }
    }

    proof fn lemma_inv_cleaned(self, k: int)
        requires
            self.wf(),
            0 <= k < self.stages.len(),
            !has_failed(self.stages[k]),
        ensures
            self.inv_cleaned(k),
        decreases k,
    {
        if k > 0 {
            let j = k - 1;
            assert(self.steps_at(j));
            self.lemma_inv_cleaned(j);
            self.lemma_inv_old(j);
            self.lemma_inv_pool(j);
            self.lemma_moments(j);
            assert forall|x: Seq<char>| #[trigger] self.failed_before(x, j) implies
                self.failed_before(x, k) by {
                let i = choose|i: int| 0 <= i < j && #[trigger] self.fails_at(x, i);
                assert(0 <= i < k && self.fails_at(x, i));
            }
            match self.stages[j] {
                ReconcileStage::ListAll => {
                    if let PoolReply::Names(all) = self.replies[j] {
                        let old = listener::old_names(all.deep_view());
                        assert forall|m: int| 0 <= m < old.len() implies self.old_listed_before(
                            #[trigger] old[m],
                            k,
                        ) by {
                            assert(old.contains(old[m]));
                            assert(self.lists_old_at(old[m], j));
                        }
                    }
                },
                ReconcileStage::Check { pool, next } => {
                    let x = pool.deep_view()[next as int];
                    if !self.passes_at(j) {
                        assert(self.fails_at(x, j));
                        assert(self.failed_before(x, k));
                    }
                },
                _ => {},
            }
        }
    }
}

/// What a reconciliation that succeeds leaves behind.
///
/// Every listed container of the former kind has been cleaned up. Every listed container of the pool
/// was found to be active or has been cleaned up, and it has been cleaned up where its worker had
/// completed or the check failed. No other container has been cleaned up. Whatever has been cleaned
/// up has no entry. Every name that still has an entry is that of a container of the pool that was
/// found to be active, and an entry is lost only where its container has been cleaned up or was not
/// listed. The pool has been listed, and a listed container of the pool that has not been cleaned up
/// keeps its entry.
pub proof fn lemma_reconciliation_leaves_active_containers(run: Reconciliation)
    requires
        run.wf(),
        has_succeeded(run.stages.last()),
    ensures
        ({
            let n = run.stages.len() - 1;
            &&& forall|x: Seq<char>| #[trigger]
                run.old_listed_before(x, n) ==> run.cleaned_before(x, n)
            &&& forall|p: Seq<Seq<char>>, x: Seq<char>|
                #[trigger] run.pool_listed_before(p, n) && #[trigger] p.contains(x)
                    ==> run.active_before(x, n) || run.cleaned_before(x, n)
            &&& forall|x: Seq<char>| #[trigger]
                run.failed_before(x, n) ==> run.cleaned_before(x, n)
            &&& forall|x: Seq<char>| #[trigger]
                run.cleaned_before(x, n) ==> run.old_listed_before(x, n) || run.failed_before(x, n)
            &&& forall|x: Seq<char>| #[trigger]
                run.cleaned_before(x, n) ==> !run.entries[n].contains(x)
            &&& forall|x: Seq<char>| #[trigger]
                run.entries[n].contains(x) ==> run.active_before(x, n)
            &&& forall|x: Seq<char>| #[trigger]
                run.entries[0].contains(x) && !run.entries[n].contains(x) ==> run.cleaned_before(
                    x,
                    n,
                ) || run.unlisted_before(x, n)
            &&& exists|p: Seq<Seq<char>>| #[trigger] run.pool_listed_before(p, n)
            &&& forall|p: Seq<Seq<char>>, x: Seq<char>|
                #[trigger] run.pool_listed_before(p, n) && #[trigger] p.contains(x)
                    && run.entries[0].contains(x) && !run.cleaned_before(x, n)
                    ==> run.entries[n].contains(x)
        }),
{
    let n = run.stages.len() - 1;
    assert(run.stages[n] == run.stages.last());
    run.lemma_inv_old(n);
    run.lemma_inv_pool(n);
    run.lemma_inv_kept(n);
    assert forall|p: Seq<Seq<char>>, x: Seq<char>|
        #[trigger] run.pool_listed_before(p, n) && #[trigger] p.contains(x) implies
        run.active_before(x, n) || run.cleaned_before(x, n) by {
        assert(run.settled_before(x, n));
    }
    run.lemma_pool_is_listed_once(n);
    let listed = run.lemma_pool_is_listed(n);
    assert(run.pool_listed_before(listed, n));
    assert forall|p: Seq<Seq<char>>, x: Seq<char>|
        #[trigger] run.pool_listed_before(p, n) && #[trigger] p.contains(x)
            && run.entries[0].contains(x) && !run.cleaned_before(x, n) implies
        run.entries[n].contains(x) by {
        if !run.entries[n].contains(x) {
            assert(run.unlisted_before(x, n));
        }
    }
    run.lemma_inv_cleaned(n);
    assert forall|x: Seq<char>| #[trigger] run.failed_before(x, n) implies run.cleaned_before(
        x,
        n,
    ) by {
        let i = choose|i: int| 0 <= i < n && #[trigger] run.fails_at(x, i);
        assert(run.steps_at(i));
        assert(run.cleans_at(x, i + 1));
        assert(i + 1 < n);
    }
}

} // verus!
