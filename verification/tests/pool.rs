use std::time::Duration;

use nostr::prelude::{nip44, Keys, PublicKey};
use runner_controller::clock::{now_seconds, whole_seconds, ClockError};
use runner_controller::config::{Config, WorkerPrice};
use runner_controller::container::ContainerManager;
use runner_controller::dispatch::{JobStage, RunOutcome};
use runner_controller::event::{Event, WorkerKeys};
use runner_controller::http::status;
use runner_controller::jobs::{
    build_result_event, JobStatus, WorkerJobRequest, WorkerJobResponse,
};
use runner_controller::listener::{stale_entries, PoolController, PoolReply, ReconcileStage};
use runner_controller::loom::WorkerIdentity;
use runner_controller::maintenance::MaintainStage;
use runner_controller::payments::{
    ClaimedPayment, CommandError, CommandOutcome, PaymentAuthorization, PaymentClient,
    PaymentError, PendingStep,
};
use runner_controller::run_loop::{RunReply, RunStage};
use runner_controller::slots::SlotStage;
use runner_controller::state::ContainerState;

fn config(slots: usize) -> Config {
    Config {
        relays: vec!["wss://relay.example".to_string()],
        worker_software: Vec::new(),
        worker_prices: vec![WorkerPrice {
            mint_url: "https://mint.example".to_string(),
            price_per_second: "10".to_string(),
            unit: "sat".to_string(),
        }],
        worker_name: "worker".to_string(),
        worker_description: "test worker".to_string(),
        worker_architecture: "x86_64".to_string(),
        worker_default_shell: "/bin/bash".to_string(),
        worker_geohash: None,
        worker_min_duration: 5,
        worker_max_duration: 120,
        worker_max_concurrent_jobs: 1,
        advertise_interval: Duration::from_secs(300),
        worker_service_name: "hive-worker.service".to_string(),
        blossom_servers: Vec::new(),
        cashu_mints: Vec::new(),
        max_concurrent_jobs: slots,
        poll_interval: Duration::from_secs(10),
        job_timeout: Duration::from_secs(7200),
        worker_http_port: 8081,
        worker_act_path: "/bin/act".to_string(),
        worker_ngit_path: "/usr/local/bin/ngit".to_string(),
        worker_git_remote_nostr_path: "/usr/local/bin/git-remote-nostr".to_string(),
        worker_work_dir: "/tmp/work".to_string(),
        state_dir: "/tmp/state".to_string(),
        cdk_cli_path: "cdk-cli".to_string(),
        cdk_work_dir: "/tmp/state/cdk-cli".to_string(),
        cdk_engine: "redb".to_string(),
        nixos_container_bin: "nixos-container".to_string(),
        http_addr: "127.0.0.1".to_string(),
        http_port: 8080,
    }
}

fn pool(slots: usize) -> PoolController {
    let workers = (0..slots)
        .map(|slot| {
            let keys = Keys::generate();
            WorkerIdentity {
                slot,
                pubkey: keys.public_key().to_hex(),
                keys: WorkerKeys {
                    secret_key: keys.secret_key().to_secret_hex(),
                    public_key: keys.public_key().to_hex(),
                },
            }
        })
        .collect();
    PoolController::new(config(slots), workers, "test-host".to_string())
}

fn strings(items: &[&str]) -> Vec<String> {
    items.iter().map(|s| s.to_string()).collect()
}

fn event(kind: u16, pubkey: &str, tags: &[&[&str]], content: &str) -> Event {
    Event {
        id: "ab".repeat(32),
        pubkey: pubkey.to_string(),
        created_at: 0,
        kind,
        tags: tags.iter().map(|t| strings(t)).collect(),
        content: content.to_string(),
        sig: String::new(),
    }
}

fn job() -> WorkerJobRequest {
    WorkerJobRequest {
        request_event_id: String::new(),
        repo: "nostr://x/y".to_string(),
        ref_: "main".to_string(),
        workflow: "ci.yml".to_string(),
        job: "test".to_string(),
        event: "push".to_string(),
        event_payload: serde_json::Value::Null,
    }
}

fn paid(amount: u64) -> ClaimedPayment {
    ClaimedPayment {
        mint_url: "https://mint.example".to_string(),
        unit: "sat".to_string(),
        amount,
    }
}

fn authorized(pool: &PoolController, amount: u64) -> PaymentAuthorization {
    match pool.payment_claimed(0, job(), Ok(paid(amount))) {
        JobStage::Run { authorization, .. } => authorization,
        other => panic!("{other:?}"),
    }
}

fn answered(elapsed_seconds: u64) -> WorkerJobResponse {
    WorkerJobResponse {
        status: JobStatus::Success,
        exit_code: Some(0),
        elapsed_seconds,
        log_tail: "ok".to_string(),
        billing: None,
        result_errors: Vec::new(),
    }
}

fn published(stage: JobStage) -> WorkerJobResponse {
    match stage {
        JobStage::Publish { response, .. } => response,
        other => panic!("{other:?}"),
    }
}

fn refusal(stage: JobStage) -> String {
    let response = published(stage);
    assert_eq!(response.status, JobStatus::Invalid);
    assert_eq!(response.billing, None);
    response.log_tail
}

#[test]
fn events_find_the_slot_they_are_addressed_to() {
    let pool = pool(3);
    let to_second = event(5100, "a", &[&["p", "x"], &["p", &pool.workers[1].pubkey]], "");
    assert_eq!(pool.slot_for_event(&to_second), Some(1));
    assert_eq!(pool.slot_for_event(&event(5100, "a", &[&["p"]], "")), None);
}

#[test]
fn advertisements_are_due_after_the_interval() {
    let pool = pool(1);
    assert!(pool.advertisements_due(None));
    assert!(!pool.advertisements_due(Some(Duration::from_millis(299_999))));
    assert!(pool.advertisements_due(Some(Duration::from_secs(300))));
}

#[test]
fn stale_entries_have_no_container() {
    assert_eq!(
        stale_entries(&strings(&["a", "b", "c"]), &strings(&["b", "d"])),
        strings(&["a", "c"])
    );
}

#[test]
fn states_follow_the_clock() {
    let mut state = ContainerState::new_at(2, "key".to_string(), 100);
    assert_eq!(state.running_seconds_at(130), 30);
    assert_eq!(state.running_seconds_at(90), 0);
    assert_eq!(state.advertised_at, None);
    state.mark_advertised_at(140);
    assert_eq!(state.advertised_at, Some(140));

    let mut now = ContainerState::new(2, "key".to_string()).unwrap();
    assert!(now.started_at > 1_600_000_000);
    assert!(now.running_seconds().unwrap() < 1_000);
    now.mark_advertised().unwrap();
    assert!(now.advertised_at.unwrap() >= now.started_at);

    let read = ContainerState::new_by(4, "key".to_string(), Ok(200)).unwrap();
    assert_eq!((read.slot, read.started_at, read.advertised_at), (4, 200, None));
    assert_eq!(
        ContainerState::new_by(4, "key".to_string(), Err(ClockError)),
        Err(ClockError)
    );
    assert_eq!(state.running_seconds_by(Ok(160)), Ok(60));
    assert_eq!(state.running_seconds_by(Err(ClockError)), Err(ClockError));
    assert_eq!(state.mark_advertised_by(Err(ClockError)), Err(ClockError));
    assert_eq!(state.advertised_at, Some(140));
    assert_eq!(state.mark_advertised_by(Ok(145)), Ok(()));
    assert_eq!(state.advertised_at, Some(145));

    let pool = pool(1);
    let updated = pool.advertised_state(0, state, 150);
    assert_eq!(updated.worker_pubkey, pool.workers[0].pubkey);
    assert_eq!(updated.started_at, 100);
    assert_eq!(updated.advertised_at, Some(150));
}

#[test]
fn status_shows_remembered_containers() {
    let entries = vec![(
        "aa098-r0".to_string(),
        ContainerState {
            slot: 0,
            started_at: 1_000,
            worker_pubkey: "key".to_string(),
            advertised_at: Some(1_010),
        },
    )];
    let page = status(&config(4), entries, 1_060, 99);
    assert_eq!(page.pool_size, 4);
    assert_eq!(page.active_containers, 1);
    assert_eq!(page.containers[0].name, "aa098-r0");
    assert_eq!(page.containers[0].running_seconds, 60);
    assert_eq!(page.containers[0].advertised_at, Some(1_010));
    assert_eq!(page.poll_interval_seconds, 10);
    assert_eq!(page.job_timeout_seconds, 7_200);
    assert_eq!(page.advertisement.advertise_interval_seconds, 300);
    assert_eq!(page.uptime_seconds, 99);
}

#[test]
fn reconciliation_cleans_up_and_forgets() {
    let pool = pool(2);
    let stage = pool.reconcile_on_startup();
    let all = strings(&["aa098-r0", "j7", "aa098-r1", "j8"]);
    let stage = pool.resume_reconcile(stage, PoolReply::Names(all));
    let ReconcileStage::CleanOld { names, next: 0 } = &stage else {
        panic!("{stage:?}")
    };
    assert_eq!(names, &strings(&["j7", "j8"]));
    let stage = pool.resume_reconcile(stage, PoolReply::Done);
    assert!(matches!(stage, ReconcileStage::ForgetOld { next: 0, .. }));
    let stage = pool.resume_reconcile(stage, PoolReply::Done);
    assert!(matches!(stage, ReconcileStage::CleanOld { next: 1, .. }));
    let stage = pool.resume_reconcile(stage, PoolReply::Done);
    let stage = pool.resume_reconcile(stage, PoolReply::Done);
    assert!(matches!(stage, ReconcileStage::ListPool));
    let listed = strings(&["aa098-r0", "aa098-r1", "aa098-r2"]);
    let stage = pool.resume_reconcile(stage, PoolReply::Names(listed));
    assert!(matches!(stage, ReconcileStage::Check { next: 0, .. }));
    let stage = pool.resume_reconcile(stage, PoolReply::Completed(true));
    assert!(matches!(stage, ReconcileStage::CleanPool { next: 0, .. }));
    let stage = pool.resume_reconcile(stage, PoolReply::Done);
    assert!(matches!(stage, ReconcileStage::ForgetPool { next: 0, .. }));
    let stage = pool.resume_reconcile(stage, PoolReply::Done);
    let stage = pool.resume_reconcile(stage, PoolReply::Completed(false));
    assert!(matches!(stage, ReconcileStage::Check { next: 2, .. }));
    let stage = pool.resume_reconcile(stage, PoolReply::Failed("?".to_string()));
    assert!(matches!(stage, ReconcileStage::CleanPool { next: 2, .. }));
    let stage = pool.resume_reconcile(stage, PoolReply::Done);
    let stage = pool.resume_reconcile(stage, PoolReply::Done);
    assert!(matches!(stage, ReconcileStage::ListEntries { .. }));
    let entries = strings(&["aa098-r1", "gone"]);
    let stage = pool.resume_reconcile(stage, PoolReply::Names(entries));
    let ReconcileStage::RemoveEntry { stale, next: 0 } = &stage else {
        panic!("{stage:?}")
    };
    assert_eq!(stale, &strings(&["gone"]));
    let stage = pool.resume_reconcile(stage, PoolReply::Done);
    assert!(matches!(stage, ReconcileStage::Done { result: Ok(()) }));

    let failed = pool.resume_reconcile(
        ReconcileStage::ListPool,
        PoolReply::Failed("no list".to_string()),
    );
    let ReconcileStage::Done { result: Err(message) } = failed else {
        panic!("{failed:?}")
    };
    assert_eq!(message, "no list");
}

#[test]
fn maintenance_looks_after_every_slot() {
    let pool = pool(4);
    let name = |slot| ContainerManager::slot_to_container_name("test-host", slot);
    assert_eq!(pool.container_name(3), name(3));
    let current = vec![name(1), name(2), name(3)];

    let stage = pool.maintain_pool();
    let stage = pool.resume_maintain(stage, PoolReply::Names(current));
    assert!(matches!(stage, MaintainStage::Spawn { slot: 0, .. }));
    let stage = pool.resume_maintain(stage, PoolReply::Failed("no".to_string()));
    assert!(matches!(stage, MaintainStage::Check { slot: 1, .. }));
    let stage = pool.resume_maintain(stage, PoolReply::Completed(true));
    assert!(matches!(stage, MaintainStage::Respawn { slot: 1, .. }));
    let stage = pool.resume_maintain(stage, PoolReply::Done);
    assert!(matches!(stage, MaintainStage::Check { slot: 2, .. }));
    let stage = pool.resume_maintain(stage, PoolReply::Completed(false));
    let old = ContainerState::new_at(2, "old".to_string(), 5);
    let stage = pool.resume_maintain(stage, PoolReply::State(Some(old)));
    let MaintainStage::UpdateState { slot: 2, state, .. } = &stage else {
        panic!("{stage:?}")
    };
    assert_eq!(state.worker_pubkey, pool.workers[2].pubkey);
    assert_eq!(state.started_at, 5);
    let stage = pool.resume_maintain(stage, PoolReply::Done);
    let stage = pool.resume_maintain(stage, PoolReply::Completed(false));
    let stage = pool.resume_maintain(stage, PoolReply::State(None));
    let MaintainStage::RecoverState { slot: 3, worker_pubkey, .. } = &stage else {
        panic!("{stage:?}")
    };
    assert_eq!(worker_pubkey, &pool.workers[3].pubkey);
    let stage = pool.resume_maintain(stage, PoolReply::Failed("kept".to_string()));
    assert!(matches!(stage, MaintainStage::ListLatest));
    let stage = pool.resume_maintain(stage, PoolReply::Names(vec![name(0)]));
    let stage = pool.resume_maintain(stage, PoolReply::Names(vec![name(0), name(1)]));
    let MaintainStage::RemoveEntry { stale, next: 0 } = &stage else {
        panic!("{stage:?}")
    };
    assert_eq!(stale, &vec![name(1)]);
    let stage = pool.resume_maintain(stage, PoolReply::Done);
    assert!(matches!(stage, MaintainStage::Done { result: Ok(()) }));
}

#[test]
fn maintenance_breaks_off_when_the_state_is_lost() {
    let pool = pool(1);
    let load = MaintainStage::LoadState {
        current: Vec::new(),
        slot: 0,
    };
    let stage = pool.resume_maintain(load, PoolReply::Failed("db".to_string()));
    let MaintainStage::Done { result: Err(message) } = stage else {
        panic!("{stage:?}")
    };
    assert_eq!(message, "db");

    let check = MaintainStage::Check {
        current: Vec::new(),
        slot: 0,
    };
    let stage = pool.resume_maintain(check, PoolReply::Failed("unreachable".to_string()));
    assert!(matches!(stage, MaintainStage::Respawn { slot: 0, .. }));

    let load = MaintainStage::LoadState {
        current: Vec::new(),
        slot: 0,
    };
    let known = ContainerState::new_at(0, pool.workers[0].pubkey.clone(), 5);
    let stage = pool.resume_maintain(load, PoolReply::State(Some(known)));
    assert!(matches!(stage, MaintainStage::ListLatest));
}

#[test]
fn the_main_loop_stops_when_told() {
    let pool = pool(1);
    let client = PaymentClient::new(&pool.config);
    let stage = pool.run(&client);
    assert!(matches!(stage, RunStage::CheckPending { next: 0, .. }));
    let stage = pool.resume_run(stage, RunReply::Done);
    assert!(matches!(stage, RunStage::Reconcile));
    let stage = pool.resume_run(stage, RunReply::Done);
    assert!(matches!(stage, RunStage::Advertise { first: true, slot: 0 }));
    let stage = pool.resume_run(stage, RunReply::Failed("no relay".to_string()));
    assert!(matches!(stage, RunStage::Subscribe));
    let stage = pool.resume_run(stage, RunReply::Failed("no relay".to_string()));
    assert!(matches!(stage, RunStage::LookForShutdown));
    let stage = pool.resume_run(stage, RunReply::Answer(false));
    let stage = pool.resume_run(stage, RunReply::Failed("round".to_string()));
    let stage = pool.resume_run(stage, RunReply::Answer(true));
    assert!(matches!(stage, RunStage::Advertise { first: false, slot: 0 }));
    let stage = pool.resume_run(stage, RunReply::Done);
    let stage = pool.resume_run(stage, RunReply::EventArrived);
    assert!(matches!(stage, RunStage::Handle));
    let stage = pool.resume_run(stage, RunReply::Done);
    let stage = pool.resume_run(stage, RunReply::Answer(false));
    let stage = pool.resume_run(stage, RunReply::Done);
    let stage = pool.resume_run(stage, RunReply::Answer(false));
    assert!(matches!(stage, RunStage::Wait));
    let stage = pool.resume_run(stage, RunReply::Woken);
    let stage = pool.resume_run(stage, RunReply::Answer(true));
    assert!(matches!(stage, RunStage::Stopped { result: Ok(()) }));

    let stage = pool.resume_run(RunStage::Wait, RunReply::Signal(true));
    assert!(matches!(stage, RunStage::Stopped { result: Ok(()) }));
    let stage = pool.resume_run(RunStage::Wait, RunReply::Signal(false));
    assert!(matches!(stage, RunStage::LookForShutdown));
    let stage = pool.resume_run(RunStage::Reconcile, RunReply::Failed("x".to_string()));
    assert!(matches!(stage, RunStage::Stopped { result: Err(_) }));
}

#[test]
fn requests_are_taken_in_for_their_worker_only() {
    let pool = pool(2);
    let worker = pool.workers[1].pubkey.clone();
    let requester = Keys::generate();
    let content = nip44::encrypt(
        requester.secret_key(),
        &PublicKey::from_hex(&worker).unwrap(),
        "a job",
        nip44::Version::V2,
    )
    .unwrap();
    let sender = requester.public_key().to_hex();
    let other_kind = event(1, &sender, &[&["p", &worker]], &content);
    assert!(matches!(pool.handle_job_event(&other_kind), JobStage::Finished));
    let elsewhere = event(5100, &sender, &[&["p", "x"]], &content);
    assert!(matches!(pool.handle_job_event(&elsewhere), JobStage::Finished));
    let stage = pool.handle_job_event(&event(5100, &sender, &[&["p", &worker]], &content));
    let JobStage::Read { slot: 1, plaintext } = stage else {
        panic!("{stage:?}")
    };
    assert_eq!(plaintext, "a job");
    let unreadable = event(5100, &sender, &[&["p", &worker]], "in clear");
    assert_eq!(
        refusal(pool.handle_job_event(&unreadable)),
        "failed to decrypt job content"
    );
}

#[test]
fn jobs_need_one_payment() {
    let pool = pool(1);
    let with = |tags: &[&[&str]]| event(5100, "a", tags, "");
    let stage = pool.job_read(&with(&[&["payment", " cashuAt "]]), 0, Some(job()));
    let JobStage::Claim { token, signing_key, job: read, .. } = stage else {
        panic!("{stage:?}")
    };
    assert_eq!(token, "cashuAt");
    assert_eq!(signing_key, pool.workers[0].keys.secret_key);
    assert_eq!(read.request_event_id, "ab".repeat(32));
    assert_eq!(
        refusal(pool.job_read(&with(&[]), 0, Some(job()))),
        "job request must include exactly one payment tag"
    );
    assert_eq!(
        refusal(pool.job_read(&with(&[&["payment", ""]]), 0, Some(job()))),
        "payment tag token cannot be empty"
    );
    assert_eq!(
        refusal(pool.job_read(&with(&[&["payment", "t"]]), 0, None)),
        "job payload must be valid JSON"
    );
}

#[test]
fn payments_buy_time_or_are_refused() {
    let pool = pool(1);
    let bought = authorized(&pool, 2_000);
    assert_eq!(bought.prepaid_seconds, 200);
    assert_eq!(bought.timeout, Duration::from_secs(120));
    assert_eq!(
        refusal(pool.payment_claimed(0, job(), Ok(paid(49)))),
        "payment below minimum: received 49 sat, required 50 sat"
    );
    assert_eq!(
        refusal(pool.payment_claimed(0, job(), Err(PaymentError::ZeroAmount))),
        "received payment amount was zero"
    );
}

#[test]
fn answered_jobs_are_billed_and_change_is_given() {
    let pool = pool(1);
    let exact = published(pool.job_run(0, authorized(&pool, 50), RunOutcome::Answered(answered(3))));
    let billing = exact.billing.unwrap();
    assert_eq!(billing.duration, 3);
    assert_eq!(billing.billable_duration, 5);
    assert_eq!(billing.cost, 50);
    assert_eq!(billing.change, None);

    let stage = pool.job_run(0, authorized(&pool, 2_000), RunOutcome::Answered(answered(12)));
    let JobStage::GiveChange { slot, response, outcome, mint_url, unit } = stage else {
        panic!("{stage:?}")
    };
    assert_eq!(outcome.change_amount, 1_880);
    assert_eq!(mint_url, "https://mint.example");
    let done = pool.change_given(slot, response, outcome, mint_url, unit, Ok("cashuBc".to_string()));
    let response = published(done);
    assert_eq!(response.result_errors, Vec::<String>::new());
    assert_eq!(response.billing.unwrap().change, Some("cashuBc".to_string()));
}

#[test]
fn change_that_fails_is_mentioned() {
    let pool = pool(1);
    let stage = pool.job_run(0, authorized(&pool, 100), RunOutcome::Answered(answered(5)));
    let JobStage::GiveChange { slot, response, outcome, mint_url, unit } = stage else {
        panic!("{stage:?}")
    };
    let done = pool.change_given(
        slot,
        response,
        outcome,
        mint_url,
        unit,
        Err(PaymentError::NoToken),
    );
    let response = published(done);
    assert_eq!(
        response.result_errors,
        strings(&["cdk-cli send did not print a Cashu token"])
    );
    let billing = response.billing.unwrap();
    assert_eq!(billing.cost, 50);
    assert_eq!(billing.change, None);
}

#[test]
fn jobs_that_time_out_are_billed_for_the_paid_time() {
    let pool = pool(1);
    for respawned in [Ok(()), Err("no container".to_string())] {
        let stage = pool.job_run(0, authorized(&pool, 75), RunOutcome::TimedOut);
        let JobStage::Respawn { slot, response, authorization } = stage else {
            panic!("{stage:?}")
        };
        assert_eq!(response.status, JobStatus::Timeout);
        assert_eq!(response.elapsed_seconds, 7);
        assert_eq!(response.log_tail, "job timed out after 7 seconds");
        let stage = pool.slot_respawned(slot, response, authorization, respawned);
        let JobStage::GiveChange { outcome, .. } = stage else {
            panic!("{stage:?}")
        };
        assert_eq!(outcome.cost, 70);
        assert_eq!(outcome.change_amount, 5);
    }
}

#[test]
fn jobs_that_cannot_be_run_cost_the_minimum() {
    let pool = pool(1);
    let failed = RunOutcome::Failed("no worker".to_string());
    let response = published(pool.job_run(0, authorized(&pool, 50), failed));
    assert_eq!(response.status, JobStatus::Failure);
    assert_eq!(response.log_tail, "no worker");
    assert_eq!(response.billing.unwrap().cost, 50);
}

#[test]
fn seconds_are_counted_from_the_epoch() {
    assert_eq!(whole_seconds(Some(Duration::from_millis(2_999))), Ok(2));
    assert_eq!(whole_seconds(None), Err(ClockError));
    assert!(now_seconds().unwrap() > 1_600_000_000);
}

#[test]
fn refusals_are_answered_without_a_bill() {
    let pool = pool(1);
    let requester = Keys::generate().public_key().to_hex();
    let request = event(5100, &requester, &[&["p", &pool.workers[0].pubkey]], "");
    let response = published(pool.job_read(&request, 0, Some(job())));
    let answer = build_result_event(&pool.workers[0], &request, &response).unwrap();
    assert_eq!(
        answer.tags,
        vec![
            vec!["e".to_string(), request.id.clone()],
            vec!["p".to_string(), requester],
            vec!["status".to_string(), "invalid".to_string()],
        ]
    );
    assert_eq!(
        response.log_tail,
        "job request must include exactly one payment tag"
    );
}

fn exited(success: bool) -> CommandOutcome {
    CommandOutcome::Exited {
        success,
        stdout: String::new(),
        stderr: "no".to_string(),
    }
}

#[test]
fn the_wallet_is_checked_before_the_loop() {
    let mut settings = config(0);
    for unit in ["usd", "sat", "eur", "sat"] {
        settings.worker_prices.push(WorkerPrice {
            mint_url: "https://other.example".to_string(),
            price_per_second: "1".to_string(),
            unit: unit.to_string(),
        });
    }
    let pool = PoolController::new(settings, Vec::new(), "test-host".to_string());
    let client = PaymentClient::new(&pool.config);
    let mut stage = pool.run(&client);
    for (place, unit) in ["eur", "sat", "usd"].iter().enumerate() {
        let RunStage::CheckPending { commands, next } = &stage else {
            panic!("{stage:?}")
        };
        assert_eq!(*next, place);
        assert_eq!(commands.len(), 3);
        assert_eq!(&commands[*next].unit, unit);
        assert_eq!(commands[*next].args, strings(&["check-pending"]));
        let step = client.resume_pending(commands, *next, exited(true));
        let reply = PoolController::pending_reply(&step);
        assert!(matches!(reply, RunReply::Done));
        stage = pool.resume_run(stage, reply);
    }
    assert!(matches!(stage, RunStage::Reconcile));
    let stage = pool.resume_run(stage, RunReply::Done);
    assert!(matches!(stage, RunStage::Subscribe));

    let stage = pool.run(&client);
    let RunStage::CheckPending { commands, next } = &stage else {
        panic!("{stage:?}")
    };
    let step = client.resume_pending(commands, *next, exited(false));
    let stage = pool.resume_run(stage, PoolController::pending_reply(&step));
    let RunStage::Stopped { result: Err(message) } = stage else {
        panic!("{stage:?}")
    };
    assert_eq!(message, "cdk-cli check-pending failed: no");
}

#[test]
fn pending_commands_stop_at_the_first_failure() {
    let client = PaymentClient::new(&config(1));
    let mut prices = config(1).worker_prices;
    prices[0].unit = "a".to_string();
    prices.push(WorkerPrice {
        mint_url: "m".to_string(),
        price_per_second: "1".to_string(),
        unit: "b".to_string(),
    });
    let commands = client.check_pending_for_prices(&prices);
    assert_eq!(client.begin_pending(&commands), PendingStep::Run { next: 0 });
    assert_eq!(
        client.resume_pending(&commands, 0, exited(true)),
        PendingStep::Run { next: 1 }
    );
    assert_eq!(
        client.resume_pending(&commands, 1, exited(true)),
        PendingStep::Done { result: Ok(()) }
    );
    assert_eq!(
        client.resume_pending(&commands, 0, CommandOutcome::NotAwaited),
        PendingStep::Done { result: Err(CommandError::NotAwaited) }
    );
    assert_eq!(
        client.begin_pending(&client.check_pending_for_prices(&[])),
        PendingStep::Done { result: Ok(()) }
    );
}

#[test]
fn slots_are_cleaned_made_remembered_and_advertised() {
    let pool = pool(2);
    let stage = pool.respawn_slot(1);
    assert!(matches!(stage, SlotStage::Clean { slot: 1 }));
    let stage = pool.resume_slot(stage, PoolReply::Done);
    assert!(matches!(stage, SlotStage::Forget { slot: 1 }));
    let stage = pool.resume_slot(stage, PoolReply::Done);
    assert!(matches!(stage, SlotStage::Spawn { slot: 1 }));
    let stage = pool.resume_slot(stage, PoolReply::Done);
    let SlotStage::Remember { slot: 1, worker_pubkey } = &stage else {
        panic!("{stage:?}")
    };
    assert_eq!(worker_pubkey, &pool.workers[1].pubkey);
    let stage = pool.resume_slot(stage, PoolReply::Done);
    assert!(matches!(stage, SlotStage::Advertise { slot: 1, made: true }));
    let stage = pool.resume_slot(stage, PoolReply::Done);
    let known = ContainerState::new_at(1, "old".to_string(), 5);
    let stage = pool.resume_slot(stage, PoolReply::StateAt(Some(known), 9));
    let SlotStage::StoreState { slot: 1, made: true, state } = &stage else {
        panic!("{stage:?}")
    };
    assert_eq!(state.worker_pubkey, pool.workers[1].pubkey);
    assert_eq!((state.started_at, state.advertised_at), (5, Some(9)));
    let stage = pool.resume_slot(stage, PoolReply::Done);
    assert!(matches!(stage, SlotStage::Done { result: Ok(()) }));

    let no = || PoolReply::Failed("no".to_string());
    let made = pool.resume_slot(SlotStage::Advertise { slot: 0, made: true }, no());
    assert!(matches!(made, SlotStage::Done { result: Ok(()) }));
    let alone = pool.resume_slot(pool.publish_slot(0), no());
    assert!(matches!(alone, SlotStage::Done { result: Err(_) }));
    let unmade = pool.resume_slot(pool.spawn_slot(0), no());
    assert!(matches!(unmade, SlotStage::Done { result: Err(_) }));
    let unknown = pool.resume_slot(
        SlotStage::LoadState { slot: 0, made: false },
        PoolReply::StateAt(None, 9),
    );
    assert!(matches!(unknown, SlotStage::Done { result: Ok(()) }));
}

#[test]
fn handling_ends_though_the_result_cannot_be_published() {
    let pool = pool(1);
    assert!(matches!(pool.result_published(Ok(())), JobStage::Finished));
    let unpublished = pool.result_published(Err("no relay".to_string()));
    assert!(matches!(unpublished, JobStage::Finished));
}
