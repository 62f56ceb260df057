use std::str::FromStr;

use nostr::prelude::{
    nip04, nip44, EventBuilder, EventId, Keys, Kind, PublicKey, Signature, Tag, Timestamp,
};
use runner_controller::event::{event_is_addressed_to, event_is_valid, Event, WorkerKeys};
use runner_controller::jobs::{
    build_act_command, build_git_clone_command, build_result_event, decode_job_event,
    default_event, extract_payment_token, is_ngit_repo_url, open_job_event, parse_job_payload,
    JobBilling, JobError, JobStatus, WorkerExecutionSettings, WorkerJobRequest,
    WorkerJobResponse, JOB_REQUEST_KIND, JOB_RESULT_KIND,
};
use runner_controller::loom::WorkerIdentity;
use runner_controller::payments::BillingOutcome;
use serde_json::Value;

fn verifies(e: &Event) -> bool {
    nostr::Event::new(
        EventId::from_hex(&e.id).unwrap(),
        PublicKey::from_hex(&e.pubkey).unwrap(),
        Timestamp::from_secs(e.created_at),
        Kind::from(e.kind),
        e.tags.iter().map(|tag| Tag::parse(tag).unwrap()),
        e.content.as_str(),
        Signature::from_str(&e.sig).unwrap(),
    )
    .verify()
    .is_ok()
}

fn worker_keys(keys: &Keys) -> WorkerKeys {
    WorkerKeys {
        secret_key: keys.secret_key().to_secret_hex(),
        public_key: keys.public_key().to_hex(),
    }
}

fn identity(slot: usize) -> WorkerIdentity {
    let keys = Keys::generate();
    WorkerIdentity {
        slot,
        pubkey: keys.public_key().to_hex(),
        keys: worker_keys(&keys),
    }
}

fn valid_payload() -> String {
    r#"{"repo":"nostr://_@danconwaydev.com/gitworkshop","ref":"main","workflow":".github/workflows/ci.yml","job":"test","event":"push","event_payload":{"after":"abc"}}"#
        .to_string()
}

fn tag<const N: usize>(values: [&str; N]) -> Tag {
    Tag::parse(values).unwrap()
}

fn plain(e: &nostr::Event) -> Event {
    Event {
        id: e.id.to_hex(),
        pubkey: e.pubkey.to_hex(),
        created_at: e.created_at.as_secs(),
        kind: e.kind.as_u16(),
        tags: e.tags.iter().map(|t| t.as_slice().to_vec()).collect(),
        content: e.content.clone(),
        sig: e.sig.to_string(),
    }
}

fn request(requester: &Keys, content: String, tags: Vec<Tag>) -> Event {
    plain(
        &EventBuilder::new(Kind::Custom(JOB_REQUEST_KIND), content)
            .tags(tags)
            .sign_with_keys(requester)
            .unwrap(),
    )
}

fn text(value: &Value, name: &str) -> Option<String> {
    value.get(name)?.as_str().map(|s| s.to_string())
}

fn read_job(payload: &str) -> Option<WorkerJobRequest> {
    let value: Value = serde_json::from_str(payload).ok()?;
    Some(WorkerJobRequest {
        request_event_id: text(&value, "request_event_id").unwrap_or_default(),
        repo: text(&value, "repo")?,
        ref_: text(&value, "ref")?,
        workflow: text(&value, "workflow")?,
        job: text(&value, "job")?,
        event: text(&value, "event").unwrap_or_else(default_event),
        event_payload: value.get("event_payload").cloned().unwrap_or_default(),
    })
}

fn success(elapsed_seconds: u64) -> WorkerJobResponse {
    WorkerJobResponse {
        status: JobStatus::Success,
        exit_code: Some(0),
        elapsed_seconds,
        log_tail: "ok".to_string(),
        billing: None,
        result_errors: Vec::new(),
    }
}

#[test]
fn parser_requires_explicit_workflow_and_job() {
    let missing_workflow =
        r#"{"repo":"nostr://_@danconwaydev.com/gitworkshop","ref":"main","job":"test"}"#;
    let missing_job = r#"{"repo":"nostr://_@danconwaydev.com/gitworkshop","ref":"main","workflow":".github/workflows/ci.yml"}"#;

    assert!(parse_job_payload(read_job(missing_workflow)).is_err());
    assert!(parse_job_payload(read_job(missing_job)).is_err());
}

#[test]
fn parser_requires_ngit_nostr_repo_url() {
    let github_repo = r#"{"repo":"https://github.com/org/repo.git","ref":"main","workflow":".github/workflows/ci.yml","job":"test"}"#;

    let err = parse_job_payload(read_job(github_repo)).unwrap_err();

    assert!(err.message().contains("ngit nostr://"));
}

#[test]
fn git_clone_command_uses_ngit_nostr_remote_and_ref() {
    let job = parse_job_payload(read_job(&valid_payload())).unwrap();

    let command = build_git_clone_command(&job, "/tmp/work/repo");

    assert_eq!(command.program, "git");
    assert_eq!(
        command.args,
        vec![
            "clone".to_string(),
            "--branch".to_string(),
            "main".to_string(),
            "--single-branch".to_string(),
            "nostr://_@danconwaydev.com/gitworkshop".to_string(),
            "/tmp/work/repo".to_string(),
        ]
    );
}

#[test]
fn act_command_uses_explicit_workflow_job_event_and_ref() {
    let job = parse_job_payload(read_job(&valid_payload())).unwrap();
    let settings = WorkerExecutionSettings {
        act_path: "/bin/act".to_string(),
        work_dir: "/tmp/work".to_string(),
        timeout_seconds: 60,
    };

    let command = build_act_command(&settings, &job);

    assert_eq!(command.program, "/bin/act");
    assert_eq!(
        command.args,
        vec![
            "push".to_string(),
            "-W".to_string(),
            ".github/workflows/ci.yml".to_string(),
            "-j".to_string(),
            "test".to_string(),
        ]
    );
    assert!(command
        .env
        .contains(&("GITHUB_REF".to_string(), "main".to_string())));
    assert!(command
        .env
        .contains(&("GITHUB_SHA".to_string(), "main".to_string())));
}

#[test]
fn result_event_is_kind_6100_and_signed_by_slot_key() {
    let worker = identity(0);
    let requester = Keys::generate();
    let request = request(
        &requester,
        valid_payload(),
        vec![tag(["p", worker.pubkey.as_str()])],
    );
    let response = success(42);

    let result = build_result_event(&worker, &request, &response).unwrap();

    assert_eq!(result.kind, JOB_RESULT_KIND);
    assert_eq!(result.kind, 6100);
    assert_eq!(result.pubkey, worker.keys.public_key);
    assert!(verifies(&result));
    assert_eq!(
        result.tags,
        vec![
            vec!["e".to_string(), request.id.clone()],
            vec!["p".to_string(), requester.public_key().to_hex()],
            vec!["status".to_string(), "success".to_string()],
        ]
    );
}

#[test]
fn only_untouched_events_are_valid() {
    let worker = identity(0);
    let requester = Keys::generate();
    let recipient = tag(["p", worker.pubkey.as_str()]);
    let request = request(&requester, valid_payload(), vec![recipient]);
    assert!(event_is_valid(&request));
    let make = || build_result_event(&worker, &request, &success(42)).unwrap();
    let (one, other) = (make(), build_result_event(&worker, &request, &success(43)).unwrap());
    assert!(event_is_valid(&one));
    assert!(event_is_valid(&other));

    let mut changed = make();
    changed.id = other.id.clone();
    assert!(!event_is_valid(&changed));
    let mut changed = make();
    changed.pubkey = requester.public_key().to_hex();
    assert!(!event_is_valid(&changed));
    let mut changed = make();
    changed.created_at += 1;
    assert!(!event_is_valid(&changed));
    let mut changed = make();
    changed.kind += 1;
    assert!(!event_is_valid(&changed));
    let mut changed = make();
    changed.tags.pop();
    assert!(!event_is_valid(&changed));
    let mut changed = make();
    changed.content.push(' ');
    assert!(!event_is_valid(&changed));
    let mut changed = make();
    changed.sig = other.sig.clone();
    assert!(!event_is_valid(&changed));

    let mut broken = make();
    broken.id = "no identifier".to_string();
    assert!(!event_is_valid(&broken));
    let mut broken = make();
    broken.pubkey = String::new();
    assert!(!event_is_valid(&broken));
    let mut broken = make();
    broken.tags.push(Vec::new());
    assert!(!event_is_valid(&broken));
    let mut broken = make();
    broken.sig = String::new();
    assert!(!event_is_valid(&broken));
}

#[test]
fn extracts_exactly_one_payment_tag() {
    let worker = identity(0);
    let requester = Keys::generate();
    let event = request(
        &requester,
        valid_payload(),
        vec![
            tag(["p", worker.pubkey.as_str()]),
            tag(["payment", "cashu-token"]),
        ],
    );

    assert_eq!(extract_payment_token(&event).unwrap(), "cashu-token");

    let missing = request(
        &requester,
        valid_payload(),
        vec![tag(["p", worker.pubkey.as_str()])],
    );
    assert!(extract_payment_token(&missing).is_err());

    let duplicate = request(
        &requester,
        valid_payload(),
        vec![
            tag(["p", worker.pubkey.as_str()]),
            tag(["payment", "one"]),
            tag(["payment", "two"]),
        ],
    );
    assert!(extract_payment_token(&duplicate).is_err());
}

#[test]
fn result_event_includes_billing_tags_and_optional_change() {
    let worker = identity(0);
    let requester = Keys::generate();
    let request = request(
        &requester,
        valid_payload(),
        vec![tag(["p", worker.pubkey.as_str()])],
    );
    let mut response = success(3);
    response.with_billing(JobBilling {
        duration: 3,
        billable_duration: 5,
        cost: 50,
        mint: "https://mint.example".to_string(),
        unit: "sat".to_string(),
        change: Some("cashu-change".to_string()),
    });

    let result = build_result_event(&worker, &request, &response).unwrap();
    let tags: Vec<Vec<String>> = result.tags;

    assert!(tags.contains(&vec!["duration".to_string(), "3".to_string()]));
    assert!(tags.contains(&vec!["billable_duration".to_string(), "5".to_string()]));
    assert!(tags.contains(&vec!["cost".to_string(), "50".to_string()]));
    assert!(tags.contains(&vec![
        "mint".to_string(),
        "https://mint.example".to_string()
    ]));
    assert!(tags.contains(&vec!["unit".to_string(), "sat".to_string()]));
    assert!(tags.contains(&vec!["change".to_string(), "cashu-change".to_string()]));
}

#[test]
fn result_event_omits_change_tag_when_no_refund_is_due() {
    let worker = identity(0);
    let requester = Keys::generate();
    let request = request(
        &requester,
        valid_payload(),
        vec![tag(["p", worker.pubkey.as_str()])],
    );
    let mut response = success(5);
    response.with_billing(JobBilling {
        duration: 5,
        billable_duration: 5,
        cost: 50,
        mint: "https://mint.example".to_string(),
        unit: "sat".to_string(),
        change: None,
    });

    let result = build_result_event(&worker, &request, &response).unwrap();
    let tags: Vec<Vec<String>> = result.tags;

    assert!(tags.contains(&vec!["cost".to_string(), "50".to_string()]));
    assert!(!tags
        .iter()
        .any(|tag| tag.first().is_some_and(|name| name == "change")));
}

#[test]
fn decodes_encrypted_job_for_addressed_worker() {
    let keys = Keys::generate();
    let worker = WorkerIdentity {
        slot: 0,
        pubkey: keys.public_key().to_hex(),
        keys: worker_keys(&keys),
    };
    let requester = Keys::generate();
    let encrypted =
        nip04::encrypt(requester.secret_key(), &keys.public_key(), valid_payload()).unwrap();
    let event = request(
        &requester,
        encrypted,
        vec![tag(["p", worker.pubkey.as_str()])],
    );

    let plaintext = open_job_event(&worker, &event).unwrap();
    assert_eq!(plaintext, valid_payload());
    let job = decode_job_event(&worker, &event, read_job(&plaintext)).unwrap();

    assert_eq!(job.request_event_id, event.id);
    assert_eq!(job.workflow, ".github/workflows/ci.yml");
    assert_eq!(job.job, "test");
}

#[test]
fn opens_content_of_the_newer_scheme() {
    let keys = Keys::generate();
    let worker = WorkerIdentity {
        slot: 3,
        pubkey: keys.public_key().to_hex(),
        keys: worker_keys(&keys),
    };
    let requester = Keys::generate();
    let encrypted = nip44::encrypt(
        requester.secret_key(),
        &keys.public_key(),
        "hello",
        nip44::Version::V2,
    )
    .unwrap();
    let event = request(
        &requester,
        encrypted,
        vec![tag(["p", worker.pubkey.as_str()])],
    );
    assert_eq!(open_job_event(&worker, &event), Ok("hello".to_string()));
}

#[test]
fn requests_that_cannot_be_opened_tell_why() {
    let worker = identity(0);
    let requester = Keys::generate();
    let to_worker = vec![tag(["p", worker.pubkey.as_str()])];

    let mut wrong_kind = request(&requester, valid_payload(), to_worker.clone());
    wrong_kind.kind = 1;
    let error = decode_job_event(&worker, &wrong_kind, None).unwrap_err();
    assert_eq!(error, JobError::WrongKind);
    assert_eq!(error.message(), "event kind must be 5100");

    let elsewhere = request(&requester, valid_payload(), vec![tag(["p", "someone"])]);
    assert!(!event_is_addressed_to(&elsewhere, &worker.pubkey));
    let error = decode_job_event(&worker, &elsewhere, None).unwrap_err();
    assert_eq!(
        error.message(),
        format!("job is not addressed to worker {}", worker.pubkey)
    );

    let in_clear = request(&requester, valid_payload(), to_worker);
    let error = decode_job_event(&worker, &in_clear, None).unwrap_err();
    assert_eq!(error.message(), "failed to decrypt job content");
}

#[test]
fn jobs_have_to_say_all_they_have_to_say() {
    let job = |change: &dyn Fn(&mut WorkerJobRequest)| {
        let mut job = read_job(&valid_payload()).unwrap();
        change(&mut job);
        parse_job_payload(Some(job)).map_err(|e| e.message())
    };
    let refused = |message: &str| Err(message.to_string());
    assert_eq!(job(&|j| j.repo = " ".to_string()), refused("repo is required"));
    assert_eq!(
        job(&|j| j.repo = " nostr:// ".to_string()),
        refused("repo must be an ngit nostr:// clone URL")
    );
    assert_eq!(job(&|j| j.ref_ = "".to_string()), refused("ref is required"));
    assert_eq!(
        job(&|j| j.workflow = "\t".to_string()),
        refused("workflow is required")
    );
    assert_eq!(job(&|j| j.job = "\n".to_string()), refused("job is required"));
    assert_eq!(job(&|j| j.event = " ".to_string()), refused("event is required"));
    assert_eq!(
        parse_job_payload(None).map_err(|e| e.message()),
        refused("job payload must be valid JSON")
    );
    let kept = job(&|j| j.request_event_id = " id ".to_string()).unwrap();
    assert_eq!(kept.request_event_id, "id");
    assert!(is_ngit_repo_url(" nostr://x "));
}

#[test]
fn payment_tags_tell_what_is_wrong() {
    let requester = Keys::generate();
    let none = request(&requester, String::new(), vec![tag(["payment", "a", "b"])]);
    assert_eq!(
        extract_payment_token(&none).unwrap_err().message(),
        "job request must include exactly one payment tag"
    );
    let empty = request(&requester, String::new(), vec![tag(["payment", "  "])]);
    assert_eq!(
        extract_payment_token(&empty).unwrap_err().message(),
        "payment tag token cannot be empty"
    );
    let spaced = request(&requester, String::new(), vec![tag(["payment", " t "])]);
    assert_eq!(extract_payment_token(&spaced).unwrap(), "t");
}

#[test]
fn responses_are_written_as_json() {
    let mut response = WorkerJobResponse {
        status: JobStatus::Failure,
        exit_code: Some(-7),
        elapsed_seconds: 9,
        log_tail: "a \"quoted\"\nline \u{e9}".to_string(),
        billing: None,
        result_errors: vec!["left out".to_string()],
    };
    let value: Value = serde_json::from_str(&response.to_json()).unwrap();
    assert_eq!(value["status"], Value::from("failure"));
    assert_eq!(value["exit_code"], Value::from(-7));
    assert_eq!(value["elapsed_seconds"], Value::from(9));
    assert_eq!(value["log_tail"], Value::from("a \"quoted\"\nline \u{e9}"));
    assert_eq!(value.get("billing"), None);
    assert_eq!(value.get("result_errors"), None);

    let outcome = BillingOutcome {
        duration: 9,
        billable_duration: 10,
        cost: 100,
        change_amount: 0,
    };
    response.with_billing(JobBilling::from_outcome(
        outcome,
        "m".to_string(),
        "sat".to_string(),
        None,
    ));
    assert_eq!(
        response.billing.as_ref().unwrap().to_json(),
        r#"{"duration":9,"billable_duration":10,"cost":100,"mint":"m","unit":"sat"}"#
    );
    let value: Value = serde_json::from_str(&response.to_json()).unwrap();
    assert_eq!(value["billing"]["cost"], Value::from(100));

    let bare = WorkerJobResponse::invalid("no".to_string());
    assert_eq!(
        bare.to_json(),
        r#"{"status":"invalid","exit_code":null,"elapsed_seconds":0,"log_tail":"no"}"#
    );
}

#[test]
fn bare_responses_have_their_status() {
    let failure = WorkerJobResponse::failure("f".to_string());
    assert_eq!(failure.status, JobStatus::Failure);
    assert_eq!(failure.log_tail, "f");
    let timeout = WorkerJobResponse::timeout("t".to_string(), 12);
    assert_eq!(timeout.status.as_str(), "timeout");
    assert_eq!(timeout.elapsed_seconds, 12);
    assert_eq!(JobStatus::Success.as_str(), "success");
    assert_eq!(JobStatus::Failure.as_str(), "failure");
    assert_eq!(JobStatus::Invalid.as_str(), "invalid");
}

#[test]
fn errors_of_a_response_become_tags() {
    let worker = identity(0);
    let requester = Keys::generate();
    let request = request(&requester, String::new(), vec![]);
    let mut response = success(1);
    response.add_result_error("no change".to_string());
    let result = build_result_event(&worker, &request, &response).unwrap();
    assert_eq!(
        result.tags.last().unwrap(),
        &vec!["error".to_string(), "no change".to_string()]
    );
    let content: Value = serde_json::from_str(&result.content).unwrap();
    assert_eq!(content["status"], Value::from("success"));
}

#[test]
fn a_result_to_oneself_keeps_no_recipient() {
    let worker = identity(0);
    let mut own = request(&Keys::generate(), String::new(), vec![]);
    own.pubkey = worker.pubkey.clone();
    let result = build_result_event(&worker, &own, &success(1)).unwrap();
    assert!(!event_is_addressed_to(&result, &worker.pubkey));
    assert_eq!(result.tags.len(), 2);
}

#[test]
fn a_result_needs_a_valid_key() {
    let mut worker = identity(0);
    worker.keys.secret_key = "nothing".to_string();
    let request = request(&Keys::generate(), String::new(), vec![]);
    let error = build_result_event(&worker, &request, &success(1)).unwrap_err();
    assert_eq!(error.message(), "failed to sign job result event");
}
