//! Laws on the main loop: what follows what, over all the stages that it goes through.

use vstd::prelude::*;

use crate::config::WorkerPrice;
use crate::run_loop;
use crate::run_loop::{RunReply, RunStage};

verus! {

/// Whether the stage at `k` is the advertisement of a slot.
pub open spec fn advertises(stages: Seq<RunStage>, k: int, first: bool, slot: int) -> bool {
    stages[k] matches RunStage::Advertise { first: f, slot: s } && f == first && s == slot
}

/// From the advertisement of the first slot on, the other slots follow one after the other, whatever
/// becomes of each.
proof fn lemma_advertisements_follow(
    prices: Seq<WorkerPrice>,
    slots: nat,
    stages: Seq<RunStage>,
    replies: Seq<RunReply>,
    k: int,
    first: bool,
    slot: int,
)
    requires
        run_loop::is_run(prices, slots, stages, replies),
        0 <= k,
        advertises(stages, k, first, 0),
        0 <= slot < slots,
        k + slot < stages.len(),
    ensures
        advertises(stages, k + slot, first, slot),
    decreases slot,
{
    if slot > 0 {
        lemma_advertisements_follow(prices, slots, stages, replies, k, first, slot - 1);
        let j = k + slot - 1;
        assert(run_loop::is_run_step(slots, stages[j], replies[j], stages[j + 1]));
    }
}

/// When the pool is reconciled, the worker of every slot is advertised for the first time, in order, and
/// job requests are subscribed to when all of them have been, and not before.
pub proof fn lemma_workers_are_advertised_before_jobs_come(
    prices: Seq<WorkerPrice>,
    slots: nat,
    stages: Seq<RunStage>,
    replies: Seq<RunReply>,
    k: int,
)
    requires
        run_loop::is_run(prices, slots, stages, replies),
        0 <= k < replies.len(),
        stages[k] is Reconcile,
        replies[k] is Done,
    ensures
        forall|slot: int|
            0 <= slot < slots && k + 1 + slot < stages.len() ==> #[trigger] advertises(
                stages,
                k + 1 + slot,
                true,
                slot,
            ),
        k + 1 + slots < stages.len() ==> stages[k + 1 + slots] is Subscribe,
        k + 2 + slots < stages.len() ==> stages[k + 2 + slots] is LookForShutdown,
{
    assert(run_loop::is_run_step(slots, stages[k], replies[k], stages[k + 1]));
    assert forall|slot: int|
        0 <= slot < slots && k + 1 + slot < stages.len() implies #[trigger] advertises(
        stages,
        k + 1 + slot,
        true,
        slot,
    ) by {
        assert(advertises(stages, k + 1, true, 0));
        lemma_advertisements_follow(prices, slots, stages, replies, k + 1, true, slot);
    }
    let e = k + 1 + slots;
    if e < stages.len() {
        if slots > 0 {
            assert(advertises(stages, k + 1 + (slots - 1), true, slots - 1));
            assert(run_loop::is_run_step(slots, stages[e - 1], replies[e - 1], stages[e]));
        }
        if e + 1 < stages.len() {
            assert(run_loop::is_run_step(slots, stages[e], replies[e], stages[e + 1]));
        }
    }
}

/// When the workers have to be advertised again, the worker of every slot is, in order, and then the
/// controller waits.
pub proof fn lemma_due_workers_are_advertised(
    prices: Seq<WorkerPrice>,
    slots: nat,
    stages: Seq<RunStage>,
    replies: Seq<RunReply>,
    k: int,
)
    requires
        run_loop::is_run(prices, slots, stages, replies),
        0 <= k < replies.len(),
        stages[k] is LookForDue,
        replies[k] == RunReply::Answer(true),
    ensures
        forall|slot: int|
            0 <= slot < slots && k + 1 + slot < stages.len() ==> #[trigger] advertises(
                stages,
                k + 1 + slot,
                false,
                slot,
            ),
        k + 1 + slots < stages.len() ==> stages[k + 1 + slots] is Wait,
{
    assert(run_loop::is_run_step(slots, stages[k], replies[k], stages[k + 1]));
    assert forall|slot: int|
        0 <= slot < slots && k + 1 + slot < stages.len() implies #[trigger] advertises(
        stages,
        k + 1 + slot,
        false,
        slot,
    ) by {
        assert(advertises(stages, k + 1, false, 0));
        lemma_advertisements_follow(prices, slots, stages, replies, k + 1, false, slot);
    }
    let e = k + 1 + slots;
    if slots > 0 && e < stages.len() {
        assert(advertises(stages, k + 1 + (slots - 1), false, slots - 1));
        assert(run_loop::is_run_step(slots, stages[e - 1], replies[e - 1], stages[e]));
    }
}

/// Workers that need not be advertised are not: the controller waits at once.
pub proof fn lemma_workers_are_not_advertised_too_early(
    prices: Seq<WorkerPrice>,
    slots: nat,
    stages: Seq<RunStage>,
    replies: Seq<RunReply>,
    k: int,
)
    requires
        run_loop::is_run(prices, slots, stages, replies),
        0 <= k < replies.len(),
        stages[k] is LookForDue,
        replies[k] == RunReply::Answer(false),
    ensures
        stages[k + 1] is Wait,
{
    assert(run_loop::is_run_step(slots, stages[k], replies[k], stages[k + 1]));
}

/// Every event that comes in is handled, next of all, and nothing is handled that did not come in.
pub proof fn lemma_events_are_handled(
    prices: Seq<WorkerPrice>,
    slots: nat,
    stages: Seq<RunStage>,
    replies: Seq<RunReply>,
    k: int,
)
    requires
        run_loop::is_run(prices, slots, stages, replies),
        0 <= k < replies.len(),
    ensures
        stages[k] is Wait && replies[k] is EventArrived ==> stages[k + 1] is Handle,
        stages[k + 1] is Handle ==> stages[k] is Wait && replies[k] is EventArrived,
{
    assert(run_loop::is_run_step(slots, stages[k], replies[k], stages[k + 1]));
}

/// Every round maintains the pool: behind a wait that does not end the loop, and behind an event, it is
/// looked up whether the controller should stop, then the pool is maintained, and then it is looked up
/// whether the workers have to be advertised, whatever became of the event and of the pool.
pub proof fn lemma_every_round_maintains_the_pool(
    prices: Seq<WorkerPrice>,
    slots: nat,
    stages: Seq<RunStage>,
    replies: Seq<RunReply>,
    k: int,
)
    requires
        run_loop::is_run(prices, slots, stages, replies),
        0 <= k,
        k + 3 < stages.len(),
        stages[k] is Handle || (stages[k] is Wait && (replies[k] is Woken || replies[k]
            == RunReply::Signal(false))),
        replies[k + 1] == RunReply::Answer(false),
    ensures
        stages[k + 1] is LookForShutdown,
        stages[k + 2] is Maintain,
        stages[k + 3] is LookForDue,
{
    let (a, b, c) = (k, k + 1, k + 2);
    assert(run_loop::is_run_step(slots, stages[a], replies[a], stages[a + 1]));
    assert(run_loop::is_run_step(slots, stages[b], replies[b], stages[b + 1]));
    assert(run_loop::is_run_step(slots, stages[c], replies[c], stages[c + 1]));
}

/// A controller that is told to stop does so at once and reports no failure. One that has stopped does
/// nothing more.
pub proof fn lemma_the_loop_stops_when_told(
    prices: Seq<WorkerPrice>,
    slots: nat,
    stages: Seq<RunStage>,
    replies: Seq<RunReply>,
    k: int,
    j: int,
)
    requires
        run_loop::is_run(prices, slots, stages, replies),
        0 <= k < replies.len(),
        k < j < stages.len(),
        (stages[k] is LookForShutdown && replies[k] == RunReply::Answer(true)) || (stages[k] is Wait
            && replies[k] == RunReply::Signal(true)),
    ensures
        stages[j] matches RunStage::Stopped { result } && result is Ok,
    decreases j,
{
    let i = j - 1;
    if k < i {
        lemma_the_loop_stops_when_told(prices, slots, stages, replies, k, i);
    }
    assert(run_loop::is_run_step(slots, stages[i], replies[i], stages[i + 1]));
}

/// A failure that ends the loop is the one that is reported: that of a wallet command, or that of the
/// reconciliation.
pub proof fn lemma_the_loop_reports_failures(
    prices: Seq<WorkerPrice>,
    slots: nat,
    stages: Seq<RunStage>,
    replies: Seq<RunReply>,
    k: int,
    j: int,
    m: String,
)
    requires
        run_loop::is_run(prices, slots, stages, replies),
        0 <= k < replies.len(),
        k < j < stages.len(),
        stages[k] is CheckPending || stages[k] is Reconcile,
        replies[k] == RunReply::Failed(m),
    ensures
        stages[j] == (RunStage::Stopped { result: Err(m) }),
    decreases j,
{
    let i = j - 1;
    if k < i {
        lemma_the_loop_reports_failures(prices, slots, stages, replies, k, i, m);
    }
    assert(run_loop::is_run_step(slots, stages[i], replies[i], stages[i + 1]));
}

/// The wallet commands at the start are run one after the other, none left out, and the pool is
/// reconciled when all of them have succeeded.
pub proof fn lemma_pending_commands_are_all_run(
    prices: Seq<WorkerPrice>,
    slots: nat,
    stages: Seq<RunStage>,
    replies: Seq<RunReply>,
    place: int,
)
    requires
        run_loop::is_run(prices, slots, stages, replies),
        stages[0] is CheckPending,
        0 <= place <= stages[0]->commands@.len(),
        place < stages.len(),
        forall|i: int| 0 <= i < place ==> #[trigger] replies[i] is Done,
    ensures
        place < stages[0]->commands@.len() ==> (stages[place] matches RunStage::CheckPending {
            commands,
            next,
        } && commands == stages[0]->commands && next == place),
        place == stages[0]->commands@.len() ==> stages[place] is Reconcile,
    decreases place,
{
    if place > 0 {
        let j = place - 1;
        lemma_pending_commands_are_all_run(prices, slots, stages, replies, j);
        assert(run_loop::is_run_step(slots, stages[j], replies[j], stages[j + 1]));
    }
}

} // verus!
