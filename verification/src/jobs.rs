//! Jobs: what a request has to say, how it is opened, and how its result is written.

use vstd::prelude::*;

use crate::event;
pub use crate::event::event_is_addressed_to;
use crate::event::{nip04_decrypt, nip44_decrypt, sign_event, Event};
use crate::json;
use crate::json::{optional_number, ObjectWriter};
use crate::loom::WorkerIdentity;
use crate::number;
use crate::number::decimal_text;
use crate::payments::BillingOutcome;
use crate::search::starts_with;
use crate::text;
use crate::text::{same_text, trim};

verus! {

/// The kind of an event that requests a job.
pub const JOB_REQUEST_KIND: u16 = 5100;

/// The kind of an event that states the result of a job.
pub const JOB_RESULT_KIND: u16 = 6100;

/// How a job ended.
#[derive(Debug, Clone, Copy, PartialEq, Eq, Structural)]
pub enum JobStatus {
    Success,
    Failure,
    Timeout,
    Invalid,
}

/// The name of a status.
pub open spec fn status_text(s: JobStatus) -> Seq<char> {
    match s {
        JobStatus::Success => "success"@,
        JobStatus::Failure => "failure"@,
        JobStatus::Timeout => "timeout"@,
        JobStatus::Invalid => "invalid"@,
    }
}

impl JobStatus {
    /// The name of the status.
    pub fn as_str(&self) -> (r: &'static str)
        ensures
            r@ == status_text(*self),
    {
        match self {
            JobStatus::Success => "success",
            JobStatus::Failure => "failure",
            JobStatus::Timeout => "timeout",
            JobStatus::Invalid => "invalid",
        }
    }
}

/// A job that a worker is asked to run.
#[derive(Debug, PartialEq)]
pub struct WorkerJobRequest {
    pub request_event_id: String,
    pub repo: String,
    pub ref_: String,
    pub workflow: String,
    pub job: String,
    pub event: String,
    pub event_payload: serde_json::Value,
}

/// What a job cost.
#[derive(Debug, PartialEq, Eq)]
pub struct JobBilling {
    pub duration: u64,
    pub billable_duration: u64,
    pub cost: u64,
    pub mint: String,
    pub unit: String,
    pub change: Option<String>,
}

/// What became of a job.
#[derive(Debug, PartialEq, Eq)]
pub struct WorkerJobResponse {
    pub status: JobStatus,
    pub exit_code: Option<i32>,
    pub elapsed_seconds: u64,
    pub log_tail: String,
    pub billing: Option<JobBilling>,
    pub result_errors: Vec<String>,
}

impl WorkerJobResponse {
    /// Whether this is a response without exit code, bill or errors.
    pub open spec fn is_bare(self, status: JobStatus, elapsed: u64, message: Seq<char>) -> bool {
        &&& self.status == status
        &&& self.exit_code is None
        &&& self.elapsed_seconds == elapsed
        &&& self.log_tail@ == message
        &&& self.billing is None
        &&& self.result_errors@.len() == 0
    }

    /// The response to a job that was not accepted.
    pub fn invalid(message: String) -> (r: Self)
        ensures
            r.is_bare(JobStatus::Invalid, 0, message@),
    {
        WorkerJobResponse {
            status: JobStatus::Invalid,
            exit_code: None,
            elapsed_seconds: 0,
            log_tail: message,
            billing: None,
            result_errors: Vec::new(),
        }
    }

    /// The response to a job that could not be run.
    pub fn failure(message: String) -> (r: Self)
        ensures
            r.is_bare(JobStatus::Failure, 0, message@),
    {
        WorkerJobResponse {
            status: JobStatus::Failure,
            exit_code: None,
            elapsed_seconds: 0,
            log_tail: message,
            billing: None,
            result_errors: Vec::new(),
        }
    }

    /// The response to a job that took too long.
    pub fn timeout(message: String, elapsed_seconds: u64) -> (r: Self)
        ensures
            r.is_bare(JobStatus::Timeout, elapsed_seconds, message@),
    {
        WorkerJobResponse {
            status: JobStatus::Timeout,
            exit_code: None,
            elapsed_seconds,
            log_tail: message,
            billing: None,
            result_errors: Vec::new(),
        }
    }

    /// Adds the bill.
    pub fn with_billing(&mut self, payment: JobBilling)
        ensures
            final(self).billing == Some(payment),
            final(self).status == old(self).status,
            final(self).exit_code == old(self).exit_code,
            final(self).elapsed_seconds == old(self).elapsed_seconds,
            final(self).log_tail == old(self).log_tail,
            final(self).result_errors == old(self).result_errors,
    {
        self.billing = Some(payment);
    }

    /// Adds an error that the result should mention.
    pub fn add_result_error(&mut self, message: String)
        ensures
            final(self).result_errors@ == old(self).result_errors@.push(message),
            final(self).billing == old(self).billing,
            final(self).status == old(self).status,
            final(self).exit_code == old(self).exit_code,
            final(self).elapsed_seconds == old(self).elapsed_seconds,
            final(self).log_tail == old(self).log_tail,
    {
        self.result_errors.push(message);
    }
}

impl JobBilling {
    /// The bill for an outcome.
    pub fn from_outcome(
        outcome: BillingOutcome,
        mint: String,
        unit: String,
        change: Option<String>,
    ) -> (r: Self)
        ensures
            r.duration == outcome.duration,
            r.billable_duration == outcome.billable_duration,
            r.cost == outcome.cost,
            r.mint == mint,
            r.unit == unit,
            r.change == change,
    {
        JobBilling {
            duration: outcome.duration,
            billable_duration: outcome.billable_duration,
            cost: outcome.cost,
            mint,
            unit,
            change,
        }
    }
}

/// Why a job is not accepted, or its result cannot be written.
#[derive(Debug, PartialEq, Eq)]
pub enum JobError {
    /// The request is not of the right kind.
    WrongKind,
    /// The request is not for this worker.
    NotAddressed { pubkey: String },
    /// The content could not be decrypted.
    Decrypt,
    /// The content is not a job in JSON.
    NotJson,
    RepoRequired,
    RepoNotNgit,
    RefRequired,
    WorkflowRequired,
    JobRequired,
    EventRequired,
    /// The request has no payment tag, or several.
    PaymentTags,
    /// The payment tag is empty.
    EmptyPayment,
    /// The result could not be signed.
    Sign,
}

/// What an error says.
pub open spec fn job_error_text(e: JobError) -> Seq<char> {
    match e {
        JobError::WrongKind => "event kind must be 5100"@,
        JobError::NotAddressed { pubkey } => "job is not addressed to worker "@ + pubkey@,
        JobError::Decrypt => "failed to decrypt job content"@,
        JobError::NotJson => "job payload must be valid JSON"@,
        JobError::RepoRequired => "repo is required"@,
        JobError::RepoNotNgit => "repo must be an ngit nostr:// clone URL"@,
        JobError::RefRequired => "ref is required"@,
        JobError::WorkflowRequired => "workflow is required"@,
        JobError::JobRequired => "job is required"@,
        JobError::EventRequired => "event is required"@,
        JobError::PaymentTags => "job request must include exactly one payment tag"@,
        JobError::EmptyPayment => "payment tag token cannot be empty"@,
        JobError::Sign => "failed to sign job result event"@,
    }
}

impl JobError {
    /// The error in words.
    pub fn message(&self) -> (r: String)
        ensures
            r@ == job_error_text(*self),
    {
        match self {
            JobError::WrongKind => "event kind must be 5100".to_string(),
            JobError::NotAddressed { pubkey } => {
                let mut r: String = "job is not addressed to worker ".to_string();
                r.append(pubkey.as_str());
                r
            },
            JobError::Decrypt => "failed to decrypt job content".to_string(),
            JobError::NotJson => "job payload must be valid JSON".to_string(),
            JobError::RepoRequired => "repo is required".to_string(),
            JobError::RepoNotNgit => "repo must be an ngit nostr:// clone URL".to_string(),
            JobError::RefRequired => "ref is required".to_string(),
            JobError::WorkflowRequired => "workflow is required".to_string(),
            JobError::JobRequired => "job is required".to_string(),
            JobError::EventRequired => "event is required".to_string(),
            JobError::PaymentTags =>
                "job request must include exactly one payment tag".to_string(),
            JobError::EmptyPayment => "payment tag token cannot be empty".to_string(),
            JobError::Sign => "failed to sign job result event".to_string(),
        }
    }
}

// ---------------------------------------------------------------------------------------------
// Commands that run a job
// ---------------------------------------------------------------------------------------------

/// How a worker runs jobs.
#[derive(Debug, PartialEq, Eq)]
pub struct WorkerExecutionSettings {
    pub act_path: String,
    pub work_dir: String,
    pub timeout_seconds: u64,
}

/// A command that runs a workflow.
#[derive(Debug, PartialEq, Eq)]
pub struct ActCommand {
    pub program: String,
    pub args: Vec<String>,
    pub env: Vec<(String, String)>,
}

/// A command that fetches a repository.
#[derive(Debug, PartialEq, Eq)]
pub struct GitCloneCommand {
    pub program: String,
    pub args: Vec<String>,
}

/// The command that runs the workflow of a job.
pub fn build_act_command(settings: &WorkerExecutionSettings, job: &WorkerJobRequest) -> (r:
    ActCommand)
    ensures
        r.program@ == settings.act_path@,
        r.args.deep_view() == seq![job.event@, "-W"@, job.workflow@, "-j"@, job.job@],
        r.env@.len() == 2,
        r.env@[0].0@ == "GITHUB_REF"@ && r.env@[0].1@ == job.ref_@,
        r.env@[1].0@ == "GITHUB_SHA"@ && r.env@[1].1@ == job.ref_@,
{
    let mut args: Vec<String> = Vec::new();
    args.push(job.event.clone());
    args.push("-W".to_string());
    args.push(job.workflow.clone());
    args.push("-j".to_string());
    args.push(job.job.clone());
    assert(args.deep_view() =~= seq![job.event@, "-W"@, job.workflow@, "-j"@, job.job@]);
    let mut env: Vec<(String, String)> = Vec::new();
    env.push(("GITHUB_REF".to_string(), job.ref_.clone()));
    env.push(("GITHUB_SHA".to_string(), job.ref_.clone()));
    ActCommand { program: settings.act_path.clone(), args, env }
}

/// The command that fetches the repository of a job.
pub fn build_git_clone_command(job: &WorkerJobRequest, destination: &str) -> (r: GitCloneCommand)
    ensures
        r.program@ == "git"@,
        r.args.deep_view() == seq![
            "clone"@,
            "--branch"@,
            job.ref_@,
            "--single-branch"@,
            job.repo@,
            destination@,
        ],
{
    let mut args: Vec<String> = Vec::new();
    args.push("clone".to_string());
    args.push("--branch".to_string());
    args.push(job.ref_.clone());
    args.push("--single-branch".to_string());
    args.push(job.repo.clone());
    args.push(destination.to_string());
    assert(args.deep_view() =~= seq![
        "clone"@,
        "--branch"@,
        job.ref_@,
        "--single-branch"@,
        job.repo@,
        destination@,
    ]);
    GitCloneCommand { program: "git".to_string(), args }
}

// ---------------------------------------------------------------------------------------------
// Requests
// ---------------------------------------------------------------------------------------------

/// Whether a text is nothing but white space.
pub open spec fn is_blank(s: Seq<char>) -> bool {
    text::trim_spec(s).len() == 0
}

/// Whether a repository is named by an ngit clone URL: `nostr://` and something behind it.
pub open spec fn is_ngit_url(repo: Seq<char>) -> bool {
    let t = text::trim_spec(repo);
    "nostr://"@.is_prefix_of(t) && t.len() > "nostr://"@.len()
}

/// The first thing that is wrong with a job.
pub open spec fn job_problem(job: WorkerJobRequest) -> Option<JobError> {
    if is_blank(job.repo@) {
        Some(JobError::RepoRequired)
    } else if !is_ngit_url(job.repo@) {
        Some(JobError::RepoNotNgit)
    } else if is_blank(job.ref_@) {
        Some(JobError::RefRequired)
    } else if is_blank(job.workflow@) {
        Some(JobError::WorkflowRequired)
    } else if is_blank(job.job@) {
        Some(JobError::JobRequired)
    } else if is_blank(job.event@) {
        Some(JobError::EventRequired)
    } else {
        None
    }
}

fn blank(s: &str) -> (r: bool)
    ensures
        r == is_blank(s@),
{
    trim(s).as_str().is_empty()
}

/// Tests whether a repository is named by an ngit clone URL.
pub fn is_ngit_repo_url(repo: &str) -> (r: bool)
    ensures
        r == is_ngit_url(repo@),
{
    let trimmed = trim(repo);
    proof {
        reveal_strlit("nostr://");
    }
    starts_with(trimmed.as_str(), "nostr://") && trimmed.as_str().unicode_len() > 8
}

/// The event that a job runs for where the request names none.
pub fn default_event() -> (r: String)
    ensures
        r@ == "push"@,
{
    "push".to_string()
}

/// Checks that a job says all it has to say.
pub fn validate_job(job: &WorkerJobRequest) -> (r: Result<(), JobError>)
    ensures
        match r {
            Ok(_) => job_problem(*job) is None,
            Err(e) => job_problem(*job) == Some(e),
        },
{
    if blank(job.repo.as_str()) {
        return Err(JobError::RepoRequired);
    }
    if !is_ngit_repo_url(job.repo.as_str()) {
        return Err(JobError::RepoNotNgit);
    }
    if blank(job.ref_.as_str()) {
        return Err(JobError::RefRequired);
    }
    if blank(job.workflow.as_str()) {
        return Err(JobError::WorkflowRequired);
    }
    if blank(job.job.as_str()) {
        return Err(JobError::JobRequired);
    }
    if blank(job.event.as_str()) {
        return Err(JobError::EventRequired);
    }
    Ok(())
}

/// Whether `a` and `b` are the same job but for the identifier of the request.
pub open spec fn same_job(a: WorkerJobRequest, b: WorkerJobRequest) -> bool {
    &&& a.repo == b.repo
    &&& a.ref_ == b.ref_
    &&& a.workflow == b.workflow
    &&& a.job == b.job
    &&& a.event == b.event
    &&& a.event_payload == b.event_payload
}

/// Accepts a job that was read from JSON: `None` where the JSON holds no job.
pub fn parse_job_payload(decoded: Option<WorkerJobRequest>) -> (r: Result<
    WorkerJobRequest,
    JobError,
>)
    ensures
        match r {
            Ok(job) => {
                &&& decoded matches Some(d)
                &&& job_problem(d) is None
                &&& same_job(job, d)
                &&& job.request_event_id@ == text::trim_spec(d.request_event_id@)
            },
            Err(e) => match decoded {
                Some(d) => job_problem(d) == Some(e),
                None => e is NotJson,
            },
        },
{
    match decoded {
        Some(mut job) => {
            match validate_job(&job) {
                Ok(_) => {},
                Err(e) => {
                    return Err(e);
                },
            }
            job.request_event_id = trim(job.request_event_id.as_str());
            Ok(job)
        },
        None => Err(JobError::NotJson),
    }
}

/// What the content of a request is decrypted to: by the newer scheme or, where that fails, by the
/// older one.
pub open spec fn decrypted(
    secret_key: Seq<char>,
    sender: Seq<char>,
    content: Seq<char>,
) -> Option<Seq<char>> {
    match event::nip44_plaintext(secret_key, sender, content) {
        Some(s) => Some(s),
        None => event::nip04_plaintext(secret_key, sender, content),
    }
}

fn decrypt_job_content(identity: &WorkerIdentity, event: &Event) -> (r: Option<String>)
    ensures
        text::optional(r) == decrypted(identity.keys.secret_key@, event.pubkey@, event.content@),
{
    let secret_key = identity.keys.secret_key.as_str();
    match nip44_decrypt(secret_key, event.pubkey.as_str(), event.content.as_str()) {
        Some(s) => Some(s),
        None => nip04_decrypt(secret_key, event.pubkey.as_str(), event.content.as_str()),
    }
}

/// Opens a job request: checks that it is one and is for this worker, and decrypts its content.
pub fn open_job_event(identity: &WorkerIdentity, event: &Event) -> (r: Result<String, JobError>)
    ensures
        match r {
            Ok(plaintext) => {
                &&& event.kind == JOB_REQUEST_KIND
                &&& event::is_addressed_to(event.tags.deep_view(), identity.pubkey@)
                &&& decrypted(identity.keys.secret_key@, event.pubkey@, event.content@) == Some(
                    plaintext@,
                )
            },
            Err(JobError::WrongKind) => event.kind != JOB_REQUEST_KIND,
            Err(JobError::NotAddressed { pubkey }) => {
                &&& event.kind == JOB_REQUEST_KIND
                &&& !event::is_addressed_to(event.tags.deep_view(), identity.pubkey@)
                &&& pubkey@ == identity.pubkey@
            },
            Err(JobError::Decrypt) => {
                &&& event.kind == JOB_REQUEST_KIND
                &&& event::is_addressed_to(event.tags.deep_view(), identity.pubkey@)
                &&& decrypted(
                    identity.keys.secret_key@,
                    event.pubkey@,
                    event.content@,
                ) is None
            },
            Err(_) => false,
        },
{
    if event.kind != JOB_REQUEST_KIND {
        return Err(JobError::WrongKind);
    }
    if !event_is_addressed_to(event, identity.pubkey.as_str()) {
        return Err(JobError::NotAddressed { pubkey: identity.pubkey.clone() });
    }
    match decrypt_job_content(identity, event) {
        Some(plaintext) => Ok(plaintext),
        None => Err(JobError::Decrypt),
    }
}

/// Takes the job that was read from the content of an opened request. The job gets the identifier of
/// the request.
pub fn read_job_event(event: &Event, decoded: Option<WorkerJobRequest>) -> (r: Result<
    WorkerJobRequest,
    JobError,
>)
    ensures
        match r {
            Ok(job) => {
                &&& decoded matches Some(d)
                &&& job_problem(d) is None
                &&& same_job(job, d)
                &&& job.request_event_id@ == event.id@
            },
            Err(e) => match decoded {
                Some(d) => job_problem(d) == Some(e),
                None => e is NotJson,
            },
        },
{
    match parse_job_payload(decoded) {
        Ok(mut job) => {
            job.request_event_id = event.id.clone();
            Ok(job)
        },
        Err(e) => Err(e),
    }
}

/// Decodes a job request. `decoded` is the job in the JSON that the content is decrypted to.
pub fn decode_job_event(
    identity: &WorkerIdentity,
    event: &Event,
    decoded: Option<WorkerJobRequest>,
) -> (r: Result<WorkerJobRequest, JobError>)
    ensures
        ({
            let is_request = event.kind == JOB_REQUEST_KIND;
            let is_for_worker = event::is_addressed_to(event.tags.deep_view(), identity.pubkey@);
            let plaintext = decrypted(
                identity.keys.secret_key@,
                event.pubkey@,
                event.content@,
            );
            match r {
                Ok(job) => {
                    &&& is_request && is_for_worker && plaintext is Some
                    &&& decoded matches Some(d)
                    &&& job_problem(d) is None
                    &&& same_job(job, d)
                    &&& job.request_event_id@ == event.id@
                },
                Err(JobError::WrongKind) => !is_request,
                Err(JobError::NotAddressed { pubkey }) => is_request && !is_for_worker && pubkey@
                    == identity.pubkey@,
                Err(JobError::Decrypt) => is_request && is_for_worker && plaintext is None,
                Err(e) => {
                    &&& is_request && is_for_worker && plaintext is Some
                    &&& match decoded {
                        Some(d) => job_problem(d) == Some(e),
                        None => e is NotJson,
                    }
                },
            }
        }),
{
    match open_job_event(identity, event) {
        Ok(_) => read_job_event(event, decoded),
        Err(e) => Err(e),
    }
}

// ---------------------------------------------------------------------------------------------
// Payment
// ---------------------------------------------------------------------------------------------

/// The value of a payment tag.
pub open spec fn payment_value(tag: Seq<Seq<char>>) -> Option<Seq<char>> {
    if tag.len() == 2 && tag[0] == "payment"@ {
        Some(tag[1])
    } else {
        None
    }
}

/// The values of all payment tags.
pub open spec fn payment_values(tags: Seq<Seq<Seq<char>>>) -> Seq<Seq<char>> {
    tags.filter_map(|tag: Seq<Seq<char>>| payment_value(tag))
}

/// Finds the payment token of a request, which has to have exactly one payment tag.
pub fn extract_payment_token(event: &Event) -> (r: Result<String, JobError>)
    ensures
        ({
            let values = payment_values(event.tags.deep_view());
            match r {
                Ok(token) => values.len() == 1 && !is_blank(values[0]) && token@ == text::trim_spec(
                    values[0],
                ),
                Err(JobError::EmptyPayment) => values.len() == 1 && is_blank(values[0]),
                Err(JobError::PaymentTags) => values.len() != 1,
                Err(_) => false,
            }
        }),
{
    let ghost views = event.tags.deep_view();
    let ghost read = |tag: Seq<Seq<char>>| payment_value(tag);
    let mut found: Vec<String> = Vec::new();
    let mut i: usize = 0;
    assert(found.deep_view() =~= views.take(0).filter_map(read));
    while i < event.tags.len()
        invariant
            i <= event.tags@.len(),
            views == event.tags.deep_view(),
            read == (|tag: Seq<Seq<char>>| payment_value(tag)),
            found.deep_view() == views.take(i as int).filter_map(read),
        decreases event.tags.len() - i,
    {
        let tag = &event.tags[i];
        let ghost before = found.deep_view();
        let ghost next = views.take(i + 1);
        assert(next.drop_last() =~= views.take(i as int));
        assert(next.last() == tag.deep_view());
        if tag.len() == 2 {
            assert(tag.deep_view()[0] == tag@[0]@ && tag.deep_view()[1] == tag@[1]@);
            if same_text(tag[0].as_str(), "payment") {
                found.push(tag[1].clone());
                assert(found.deep_view() =~= before + seq![tag@[1]@]);
            }
        }
        i = i + 1;
    }
    assert(views.take(i as int) =~= views);
    if found.len() != 1 {
        assert(found.deep_view().len() != 1);
        return Err(JobError::PaymentTags);
    }
    assert(found.deep_view()[0] == found@[0]@);
    let token = trim(found[0].as_str());
    if token.as_str().is_empty() {
        return Err(JobError::EmptyPayment);
    }
    Ok(token)
}

// ---------------------------------------------------------------------------------------------
// Results
// ---------------------------------------------------------------------------------------------

/// The JSON members of a bill.
pub open spec fn billing_members(b: JobBilling) -> Seq<json::MemberView> {
    let members = seq![
        json::member("duration"@, number::decimal(b.duration as nat)),
        json::member("billable_duration"@, number::decimal(b.billable_duration as nat)),
        json::member("cost"@, number::decimal(b.cost as nat)),
        json::member("mint"@, json::json_string(b.mint@)),
        json::member("unit"@, json::json_string(b.unit@)),
    ];
    match b.change {
        Some(change) => members.push(json::member("change"@, json::json_string(change@))),
        None => members,
    }
}

/// The JSON members of a response. The errors are not among them.
pub open spec fn response_members(r: WorkerJobResponse) -> Seq<json::MemberView> {
    let members = seq![
        json::member("status"@, json::json_string(status_text(r.status))),
        json::member("exit_code"@, json::optional_number_text(r.exit_code)),
        json::member("elapsed_seconds"@, number::decimal(r.elapsed_seconds as nat)),
        json::member("log_tail"@, json::json_string(r.log_tail@)),
    ];
    match r.billing {
        Some(b) => members.push(
            json::member("billing"@, json::object_text(billing_members(b))),
        ),
        None => members,
    }
}

impl JobBilling {
    /// The bill as JSON.
    pub fn to_json(&self) -> (r: String)
        ensures
            r@ == json::object_text(billing_members(*self)),
    {
        let mut w = ObjectWriter::new();
        w.number("duration", self.duration);
        w.number("billable_duration", self.billable_duration);
        w.number("cost", self.cost);
        w.string("mint", self.mint.as_str());
        w.string("unit", self.unit.as_str());
        match &self.change {
            Some(change) => {
                w.string("change", change.as_str());
            },
            None => {},
        }
        assert(w.members@ =~= billing_members(*self));
        w.finish()
    }
}

impl WorkerJobResponse {
    /// The response as JSON.
    pub fn to_json(&self) -> (r: String)
        ensures
            r@ == json::object_text(response_members(*self)),
    {
        let mut w = ObjectWriter::new();
        w.string("status", self.status.as_str());
        let exit_code = optional_number(self.exit_code);
        w.raw("exit_code", exit_code.as_str());
        w.number("elapsed_seconds", self.elapsed_seconds);
        w.string("log_tail", self.log_tail.as_str());
        match &self.billing {
            Some(b) => {
                let billing = b.to_json();
                w.raw("billing", billing.as_str());
            },
            None => {},
        }
        assert(w.members@ =~= response_members(*self));
        w.finish()
    }
}

/// The tags that state a bill.
pub open spec fn billing_tags(b: JobBilling) -> Seq<Seq<Seq<char>>> {
    let tags = seq![
        seq!["duration"@, number::decimal(b.duration as nat)],
        seq!["billable_duration"@, number::decimal(b.billable_duration as nat)],
        seq!["cost"@, number::decimal(b.cost as nat)],
        seq!["mint"@, b.mint@],
        seq!["unit"@, b.unit@],
    ];
    match b.change {
        Some(change) => tags.push(seq!["change"@, change@]),
        None => tags,
    }
}

/// The tags that state a bill, where there is one.
pub open spec fn optional_billing_tags(b: Option<JobBilling>) -> Seq<Seq<Seq<char>>> {
    match b {
        Some(b) => billing_tags(b),
        None => seq![],
    }
}

/// The tags that state errors.
pub open spec fn error_tags(errors: Seq<String>) -> Seq<Seq<Seq<char>>> {
    errors.map_values(|e: String| seq!["error"@, e@])
}

/// The tags of a result.
pub open spec fn result_tags(
    request_id: Seq<char>,
    requester: Seq<char>,
    r: WorkerJobResponse,
) -> Seq<Seq<Seq<char>>> {
    let head = seq![
        seq!["e"@, request_id],
        seq!["p"@, requester],
        seq!["status"@, status_text(r.status)],
    ];
    head + optional_billing_tags(r.billing) + error_tags(r.result_errors@)
}

/// Adds a tag with a name and a value.
pub fn push_tag(tags: &mut Vec<Vec<String>>, name: &str, value: &str)
    ensures
        final(tags).deep_view() == old(tags).deep_view().push(seq![name@, value@]),
{
    let mut tag: Vec<String> = Vec::new();
    tag.push(name.to_string());
    tag.push(value.to_string());
    assert(tag.deep_view() =~= seq![name@, value@]);
    let ghost before = tags.deep_view();
    let ghost view = tag.deep_view();
    tags.push(tag);
    assert(tags.deep_view() =~= before.push(view));
}

fn push_billing_tags(tags: &mut Vec<Vec<String>>, billing: &JobBilling)
    ensures
        final(tags).deep_view() == old(tags).deep_view() + billing_tags(*billing),
{
    let ghost before = tags.deep_view();
    push_tag(tags, "duration", decimal_text(billing.duration).as_str());
    push_tag(tags, "billable_duration", decimal_text(billing.billable_duration).as_str());
    push_tag(tags, "cost", decimal_text(billing.cost).as_str());
    push_tag(tags, "mint", billing.mint.as_str());
    push_tag(tags, "unit", billing.unit.as_str());
    match &billing.change {
        Some(change) => {
            push_tag(tags, "change", change.as_str());
        },
        None => {},
    }
    assert(tags.deep_view() =~= before + billing_tags(*billing));
}

/// Writes the event that states the result of a job.
pub fn build_result_event(
    identity: &WorkerIdentity,
    request: &Event,
    response: &WorkerJobResponse,
) -> (r: Result<Event, JobError>)
    ensures
        match r {
            Ok(e) => {
                &&& event::parsed_keys(identity.keys.secret_key@) is Some
                &&& event::is_signed_event(
                    e,
                    identity.keys.secret_key@,
                    JOB_RESULT_KIND,
                    json::object_text(response_members(*response)),
                    result_tags(request.id@, request.pubkey@, *response),
                )
            },
            Err(e) => e is Sign && event::parsed_keys(identity.keys.secret_key@) is None,
        },
{
    let content = response.to_json();
    let mut tags: Vec<Vec<String>> = Vec::new();
    assert(tags.deep_view() =~= seq![]);
    push_tag(&mut tags, "e", request.id.as_str());
    push_tag(&mut tags, "p", request.pubkey.as_str());
    push_tag(&mut tags, "status", response.status.as_str());
    let ghost head = seq![
        seq!["e"@, request.id@],
        seq!["p"@, request.pubkey@],
        seq!["status"@, status_text(response.status)],
    ];
    assert(tags.deep_view() =~= head);
    let ghost bill = optional_billing_tags(response.billing);
    match &response.billing {
        Some(b) => {
            push_billing_tags(&mut tags, b);
        },
        None => {},
    }
    assert(tags.deep_view() =~= head + bill);
    let ghost errors = error_tags(response.result_errors@);
    let mut i: usize = 0;
    while i < response.result_errors.len()
        invariant
            i <= response.result_errors@.len(),
            errors == error_tags(response.result_errors@),
            tags.deep_view() =~= head + bill + errors.take(i as int),
        decreases response.result_errors.len() - i,
    {
        push_tag(&mut tags, "error", response.result_errors[i].as_str());
        assert(errors.take(i + 1) =~= errors.take(i as int).push(errors[i as int]));
        i = i + 1;
    }
    assert(errors.take(i as int) =~= errors);
    assert(event::tags_are_named(tags.deep_view())) by {
        assert(tags.deep_view() == result_tags(request.id@, request.pubkey@, *response));
    }
    match sign_event(
        identity.keys.secret_key.as_str(),
        JOB_RESULT_KIND,
        content.as_str(),
        &tags,
    ) {
        Some(e) => Ok(e),
        None => Err(JobError::Sign),
    }
}

// ---------------------------------------------------------------------------------------------
// Laws
// ---------------------------------------------------------------------------------------------

/// Whether one of the tags has this name.
pub open spec fn has_tag(tags: Seq<Seq<Seq<char>>>, name: Seq<char>) -> bool {
    exists|i: int| 0 <= i < tags.len() && (#[trigger] tags[i]).len() > 0 && tags[i][0] == name
}

/// Leaving out the tags that refer to the author leaves out no other tag.
pub proof fn lemma_signed_tags(tags: Seq<Seq<Seq<char>>>, author: Seq<char>, tag: Seq<Seq<char>>)
    ensures
        event::signed_tags(tags, author).contains(tag) <==> tags.contains(tag)
            && !event::is_recipient_tag(tag, author),
{
    let keep = |t: Seq<Seq<char>>| !event::is_recipient_tag(t, author);
    let kept = event::signed_tags(tags, author);
    if kept.contains(tag) {
        tags.lemma_filter_contains_rev(keep, tag);
        let i = choose|i: int| 0 <= i < kept.len() && kept[i] == tag;
        tags.lemma_filter_pred(keep, i);
    }
    if tags.contains(tag) && !event::is_recipient_tag(tag, author) {
        let i = choose|i: int| 0 <= i < tags.len() && tags[i] == tag;
        tags.lemma_filter_contains(keep, i);
    }
}

/// The names of the tags of a result.
proof fn lemma_result_tag_names(
    request_id: Seq<char>,
    requester: Seq<char>,
    r: WorkerJobResponse,
    tag: Seq<Seq<char>>,
)
    requires
        result_tags(request_id, requester, r).contains(tag),
    ensures
        tag.len() == 2,
        tag[0] == "change"@ ==> (r.billing matches Some(b) && b.change matches Some(c) && tag[1]
            == c@),
        tag[0] == "error"@ ==> exists|i: int|
            0 <= i < r.result_errors@.len() && (#[trigger] r.result_errors@[i])@ == tag[1],
{
    reveal_strlit("e");
    reveal_strlit("p");
    reveal_strlit("status");
    reveal_strlit("duration");
    reveal_strlit("billable_duration");
    reveal_strlit("cost");
    reveal_strlit("mint");
    reveal_strlit("unit");
    reveal_strlit("change");
    reveal_strlit("error");
    assert("status"@[0] == 's' && "change"@[0] == 'c');
    assert("e"@.len() == 1 && "p"@.len() == 1 && "status"@.len() == 6 && "error"@.len() == 5);
    assert("duration"@.len() == 8 && "billable_duration"@.len() == 17 && "cost"@.len() == 4);
    assert("mint"@.len() == 4 && "unit"@.len() == 4 && "change"@.len() == 6);
    let tags = result_tags(request_id, requester, r);
    let bill = optional_billing_tags(r.billing);
    let errors = error_tags(r.result_errors@);
    let i = choose|i: int| 0 <= i < tags.len() && tags[i] == tag;
    if i >= 3 + bill.len() {
        let j = i - 3 - bill.len();
        assert(tag == errors[j]);
        assert(r.result_errors@[j]@ == tag[1]);
    } else if i >= 3 {
        assert(tag == bill[i - 3]);
        assert(r.billing is Some);
    } else {
        assert(tag[0] == "e"@ || tag[0] == "p"@ || tag[0] == "status"@);
    }
}

/// A result event answers its request: it refers to it, states the status, and goes to whoever sent
/// the request, unless that is the worker itself.
pub proof fn lemma_result_answers_request(
    e: Event,
    secret_key: Seq<char>,
    request_id: Seq<char>,
    requester: Seq<char>,
    r: WorkerJobResponse,
)
    requires
        event::is_signed_event(
            e,
            secret_key,
            JOB_RESULT_KIND,
            json::object_text(response_members(r)),
            result_tags(request_id, requester, r),
        ),
    ensures
        e.kind == JOB_RESULT_KIND,
        e.pubkey@ == event::public_key_of(secret_key),
        e.tags.deep_view().contains(seq!["e"@, request_id]),
        e.tags.deep_view().contains(seq!["status"@, status_text(r.status)]),
        requester != e.pubkey@ ==> event::is_addressed_to(e.tags.deep_view(), requester),
{
    reveal_strlit("e");
    reveal_strlit("p");
    reveal_strlit("status");
    let tags = result_tags(request_id, requester, r);
    let author = e.pubkey@;
    let first = seq!["e"@, request_id];
    let third = seq!["status"@, status_text(r.status)];
    assert(tags[0] == first);
    assert(tags[1] == seq!["p"@, requester]);
    assert(tags[2] == third);
    assert("e"@[0] != "p"@[0]);
    lemma_signed_tags(tags, author, first);
    lemma_signed_tags(tags, author, third);
    if requester != author {
        assert(event::is_recipient_tag(tags[1], requester));
        event::lemma_signed_tags_keep_recipients(tags, author, requester);
    }
}

/// A result event has a change tag exactly where there is change to hand out, and the tag holds the
/// token.
pub proof fn lemma_change_is_tagged(
    e: Event,
    secret_key: Seq<char>,
    request_id: Seq<char>,
    requester: Seq<char>,
    r: WorkerJobResponse,
)
    requires
        event::is_signed_event(
            e,
            secret_key,
            JOB_RESULT_KIND,
            json::object_text(response_members(r)),
            result_tags(request_id, requester, r),
        ),
    ensures
        has_tag(e.tags.deep_view(), "change"@) <==> (r.billing matches Some(b) && b.change is Some),
        r.billing matches Some(b) ==> (b.change matches Some(c) ==> e.tags.deep_view().contains(
            seq!["change"@, c@],
        )),
{
    reveal_strlit("change");
    reveal_strlit("p");
    let tags = result_tags(request_id, requester, r);
    let kept = e.tags.deep_view();
    if has_tag(kept, "change"@) {
        let i = choose|i: int|
            0 <= i < kept.len() && (#[trigger] kept[i]).len() > 0 && kept[i][0] == "change"@;
        lemma_signed_tags(tags, e.pubkey@, kept[i]);
        assert(kept.contains(kept[i]));
        lemma_result_tag_names(request_id, requester, r, kept[i]);
    }
    if let Some(b) = r.billing {
        if let Some(c) = b.change {
            let tag = seq!["change"@, c@];
            assert("change"@.len() == 6 && "p"@.len() == 1);
            assert(billing_tags(b)[5] == tag);
            assert(tags[8] == tag);
            lemma_signed_tags(tags, e.pubkey@, tag);
            let i = choose|i: int| 0 <= i < kept.len() && kept[i] == tag;
            assert(kept[i][0] == "change"@);
        }
    }
}

/// Every error of a response is told by a tag of the result event, and no error tag tells anything
/// else.
pub proof fn lemma_errors_are_tagged(
    e: Event,
    secret_key: Seq<char>,
    request_id: Seq<char>,
    requester: Seq<char>,
    r: WorkerJobResponse,
    message: Seq<char>,
)
    requires
        event::is_signed_event(
            e,
            secret_key,
            JOB_RESULT_KIND,
            json::object_text(response_members(r)),
            result_tags(request_id, requester, r),
        ),
    ensures
        e.tags.deep_view().contains(seq!["error"@, message]) <==> exists|i: int|
            0 <= i < r.result_errors@.len() && (#[trigger] r.result_errors@[i])@ == message,
{
    reveal_strlit("error");
    reveal_strlit("p");
    let tags = result_tags(request_id, requester, r);
    let tag = seq!["error"@, message];
    assert("error"@.len() == 5 && "p"@.len() == 1);
    assert(tag[0] == "error"@ && tag[1] == message);
    lemma_signed_tags(tags, e.pubkey@, tag);
    if tags.contains(tag) {
        lemma_result_tag_names(request_id, requester, r, tag);
    }
    if exists|i: int| 0 <= i < r.result_errors@.len() && (#[trigger] r.result_errors@[i])@
        == message {
        let i = choose|i: int|
            0 <= i < r.result_errors@.len() && (#[trigger] r.result_errors@[i])@ == message;
        let bill = optional_billing_tags(r.billing);
        assert(tags[3 + bill.len() + i] == error_tags(r.result_errors@)[i]);
        assert(error_tags(r.result_errors@)[i] == tag);
    }
}

} // verus!
