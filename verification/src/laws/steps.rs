//! Laws on the operations that go on with something: each takes the step that the laws on whole rounds,
//! runs and claims speak of.

use vstd::prelude::*;

use crate::claim;
use crate::claim::{ClaimProgress, ClaimState};
use crate::config::{Config, WorkerPrice};
use crate::container::{ContainerError, ContainerManager};
use crate::event;
use crate::event::Event;
use crate::github::client;
use crate::github::client::{Attempt, Method, RequestStep, Response};
use crate::jobs;
use crate::jobs::{JobError, WorkerJobResponse};
use crate::laws::events;
use crate::laws::results;
use crate::laws::workers;
use crate::listener;
use crate::listener::{PoolController, PoolReply, ReconcileStage};
use crate::loom;
use crate::loom::{LoomError, WorkerIdentity, WorkerPublication};
use crate::maintenance::MaintainStage;
use crate::payments;
use crate::payments::{CommandOutcome, PaymentClient, PendingStep, WalletCommand};
use crate::run_loop;
use crate::run_loop::{RunReply, RunStage};
use crate::slots::SlotStage;
use crate::spawn;
use crate::spawn::{SpawnAction, SpawnStage};
use crate::text;

verus! {

/// A round of the maintenance begins with the containers that are there, and goes on step by step.
pub proof fn lemma_maintenance_steps(
    pool: &PoolController,
    start: MaintainStage,
    stage: MaintainStage,
    reply: PoolReply,
    next: MaintainStage,
)
    requires
        pool.wf(),
        pool.maintain_wf(stage),
        call_ensures(PoolController::maintain_pool, (pool,), start),
        call_ensures(PoolController::resume_maintain, (pool, stage, reply), next),
    ensures
        start is ListCurrent,
        pool.is_maintain_step(stage, reply, next),
        pool.maintain_wf(next),
{
}

/// The reconciliation begins with the containers that are there, and goes on step by step.
pub proof fn lemma_reconciliation_steps(
    pool: &PoolController,
    start: ReconcileStage,
    stage: ReconcileStage,
    reply: PoolReply,
    next: ReconcileStage,
)
    requires
        call_ensures(PoolController::reconcile_on_startup, (pool,), start),
        call_ensures(PoolController::resume_reconcile, (pool, stage, reply), next),
    ensures
        start is ListAll,
        listener::is_reconcile_step(stage, reply, next),
{
}

/// The main loop begins with what is pending, and goes on step by step.
pub proof fn lemma_loop_steps(
    pool: &PoolController,
    client: &PaymentClient,
    start: RunStage,
    stage: RunStage,
    reply: RunReply,
    next: RunStage,
)
    requires
        call_ensures(PoolController::run, (pool, client), start),
        call_ensures(PoolController::resume_run, (pool, stage, reply), next),
    ensures
        run_loop::is_run_start(pool.config.worker_prices@, start),
        run_loop::is_run_step(pool.config.max_concurrent_jobs as nat, stage, reply, next),
{
}

/// The loop is told of the failure of a wallet command, in words, and otherwise that it was done.
pub proof fn lemma_pending_replies(step: &PendingStep, r: RunReply)
    requires
        call_ensures(PoolController::pending_reply, (step,), r),
    ensures
        *step matches PendingStep::Done { result: Err(e) } ==> (r matches RunReply::Failed(m) && m@
            == payments::command_error_text(e)),
        !(*step matches PendingStep::Done { result: Err(_) }) ==> r is Done,
{
}

/// The work on a slot begins with its container, with cleaning it up, or with its advertisement, and goes
/// on step by step.
pub proof fn lemma_slot_steps(
    pool: &PoolController,
    slot: usize,
    made: SlotStage,
    again: SlotStage,
    advertised: SlotStage,
    stage: SlotStage,
    reply: PoolReply,
    next: SlotStage,
)
    requires
        pool.slot_wf(stage),
        call_ensures(PoolController::spawn_slot, (pool, slot), made),
        call_ensures(PoolController::respawn_slot, (pool, slot), again),
        call_ensures(PoolController::publish_slot, (pool, slot), advertised),
        call_ensures(PoolController::resume_slot, (pool, stage, reply), next),
    ensures
        made == (SlotStage::Spawn { slot }),
        again == (SlotStage::Clean { slot }),
        advertised == (SlotStage::Advertise { slot, made: false }),
        pool.is_slot_step(stage, reply, next),
{
}

/// The making of a container begins with the networks that are used, does at each stage what belongs to
/// it, and goes on step by step.
pub proof fn lemma_making_steps(
    m: &ContainerManager,
    name: &str,
    token: &str,
    start: SpawnStage,
    stage: SpawnStage,
    action: SpawnAction,
    reply: Result<String, ContainerError>,
    next: SpawnStage,
)
    requires
        call_ensures(ContainerManager::spawn_pool_container, (m,), start),
        call_ensures(ContainerManager::spawn_action, (m, name, token, &stage), action),
        call_ensures(ContainerManager::resume_spawn, (m, name, stage, reply), next),
    ensures
        start is ListUsed,
        spawn::is_spawn_action(*m, name@, token@, stage, action),
        spawn::is_spawn_step(name@, stage, reply, next),
{
}

/// A claim begins with decoding the token, and goes on step by step.
pub proof fn lemma_claim_steps(
    c: &PaymentClient,
    token: &str,
    prices: &[WorkerPrice],
    key: Option<&str>,
    start: ClaimProgress,
    state: ClaimState,
    outcome: CommandOutcome,
    next: ClaimProgress,
)
    requires
        call_ensures(PaymentClient::claim_payment, (c, token, prices), start),
        call_ensures(PaymentClient::resume_claim, (c, token, prices, key, state, outcome), next),
    ensures
        claim::is_claim_start(token@, prices@, start),
        claim::is_claim_step(
            *c,
            token@,
            prices@,
            text::optional_str(key),
            state,
            outcome,
            next,
        ),
{
}

/// What is pending is looked after with the commands of the configured units, from the first one on and
/// one after the other.
pub proof fn lemma_pending_steps(
    c: &PaymentClient,
    prices: &[WorkerPrice],
    commands: Vec<WalletCommand>,
    start: PendingStep,
    place: usize,
    outcome: CommandOutcome,
    next: PendingStep,
)
    requires
        place < commands@.len(),
        call_ensures(PaymentClient::check_pending_for_prices, (c, prices), commands),
        call_ensures(PaymentClient::begin_pending, (c, &commands), start),
        call_ensures(PaymentClient::resume_pending, (c, &commands, place, outcome), next),
    ensures
        payments::are_pending_commands(prices@, commands@),
        start matches PendingStep::Run { next: n } && n == 0,
        payments::is_pending_step(*c, commands@, place as nat, outcome, next),
{
}

/// A request to GitHub is first sent once, and then goes on step by step.
pub proof fn lemma_request_steps(
    method: Method,
    endpoint: &str,
    first: Attempt,
    attempt: Attempt,
    response: Response,
    step: RequestStep,
)
    requires
        attempt.wf(),
        call_ensures(Attempt::first, (), first),
        call_ensures(client::next_step, (method, endpoint, attempt, response), step),
    ensures
        first.number == 1 && first.backoff_ms == 1000,
        client::is_next_step(method, endpoint@, attempt, response, step),
{
}

/// The result of a job is an event of its worker that refers to the request and tells the response: its
/// status, its bill with the mint and the unit, and its errors. It is always written where the worker has
/// a key.
pub proof fn lemma_results_are_told(
    worker: &WorkerIdentity,
    request: &Event,
    response: &WorkerJobResponse,
    r: Result<Event, JobError>,
)
    requires
        call_ensures(jobs::build_result_event, (worker, request, response), r),
    ensures
        r is Ok <==> event::parsed_keys(worker.keys.secret_key@) is Some,
        r matches Ok(e) ==> {
            &&& e.kind == 6100
            &&& results::tells_result(e.tags.deep_view(), request.id@, *response)
            &&& events::in_order(results::result_names(), e.tags.deep_view())
            &&& request.pubkey@ != e.pubkey@ ==> events::named(e.tags.deep_view(), "p"@)
                == results::tag("p"@, request.pubkey@)
        },
{
    if let Ok(e) = r {
        let key = worker.keys.secret_key@;
        assert(results::states_result(e, key, request.id@, request.pubkey@, *response));
        results::lemma_result_tags(e, key, request.id@, request.pubkey@, *response);
    }
}

/// The advertisement of a worker is an event of the worker that tells all that is offered: every piece of
/// software, every price and every relay. It is always written where the worker has a key.
pub proof fn lemma_offers_are_told(
    config: &Config,
    worker: &WorkerIdentity,
    name: &str,
    r: Result<Event, LoomError>,
)
    requires
        call_ensures(loom::build_advertisement_event, (config, worker, name), r),
    ensures
        r is Ok <==> event::parsed_keys(worker.keys.secret_key@) is Some,
        r matches Ok(e) ==> {
            &&& e.kind == 10100
            &&& workers::tells_offer(e.tags.deep_view(), *config)
            &&& events::in_order(workers::advertisement_names(), e.tags.deep_view())
        },
{
    if let Ok(e) = r {
        let key = worker.keys.secret_key@;
        assert(workers::advertises(e, key, *config, name@));
        workers::lemma_advertisements_tell_the_offer(e, key, *config, name@);
    }
}

/// All that is published of a worker is its own: a profile, a reference to it and an advertisement that
/// tells all that is offered.
pub proof fn lemma_workers_are_published(
    config: &Config,
    relays: &Vec<String>,
    worker: &WorkerIdentity,
    name: &str,
    r: Result<WorkerPublication, LoomError>,
)
    requires
        call_ensures(loom::build_worker_publication, (config, relays, worker, name), r),
    ensures
        event::parsed_keys(worker.keys.secret_key@) is None ==> r is Err,
        loom::first_invalid_relay(relays.deep_view()) is Some ==> r is Err,
        r matches Ok(p) ==> {
            &&& p.metadata.kind == 0
            &&& p.advertisement.kind == 10100
            &&& p.metadata.pubkey@ == event::public_key_of(worker.keys.secret_key@)
            &&& p.advertisement.pubkey@ == event::public_key_of(worker.keys.secret_key@)
            &&& p.metadata.content@ == loom::metadata_content(*config, name@)
            &&& p.advertisement.content@ == loom::advertisement_content(*config, name@)
            &&& workers::tells_offer(p.advertisement.tags.deep_view(), *config)
            &&& event::nprofile_text(worker.keys.public_key@, relays.deep_view()) == Some(
                p.nprofile@,
            )
        },
{
    if let Ok(p) = r {
        let key = worker.keys.secret_key@;
        assert(workers::advertises(p.advertisement, key, *config, name@));
        workers::lemma_advertisements_tell_the_offer(p.advertisement, key, *config, name@);
    }
}

} // verus!
