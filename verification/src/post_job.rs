//! Posting a job: the event that asks a worker to run it, and pays for it.

use vstd::prelude::*;

use crate::config;
use crate::config::{lookup, lookup_or, Variable};
use crate::event;
use crate::event::{nip44_encrypt, parse_keys, parse_public_key, sign_event, Event};
use crate::jobs;
use crate::jobs::{push_tag, JOB_REQUEST_KIND};
use crate::json;
use crate::json::{rewrite_json, ObjectWriter};
use crate::loom::WorkerIdentity;
use crate::search;
use crate::text;
use crate::text::split_csv;

verus! {

/// A job request, and the relays that it is sent to.
#[derive(Debug)]
pub struct JobPosting {
    pub relays: Vec<String>,
    pub event: Event,
}

/// Why a job cannot be posted.
#[derive(Debug, Clone, Copy, PartialEq, Eq, Structural)]
pub enum PostError {
    /// A required variable is not set.
    Missing(Variable),
    /// The requester's key is not a key.
    InvalidRequesterKey,
    /// The worker's public key is not one.
    InvalidWorkerKey,
    /// The payload of the event is not JSON.
    InvalidEventPayload,
    /// The request could not be encrypted.
    Encrypt,
    /// The request could not be signed.
    Sign,
}

/// What an error says.
pub open spec fn post_error_text(e: PostError) -> Seq<char> {
    match e {
        PostError::Missing(v) => config::variable_name(v) + " is required"@,
        PostError::InvalidRequesterKey =>
            "REQUESTER_NSEC must be a valid nsec or hex secret key"@,
        PostError::InvalidWorkerKey => "WORKER_PUBKEY must be a hex public key"@,
        PostError::InvalidEventPayload => "JOB_EVENT_PAYLOAD must be valid JSON"@,
        PostError::Encrypt => "failed to encrypt job request content"@,
        PostError::Sign => "failed to sign job request event"@,
    }
}

impl PostError {
    /// The error in words.
    pub fn message(&self) -> (r: String)
        ensures
            r@ == post_error_text(*self),
    {
        match self {
            PostError::Missing(v) => {
                let mut r: String = v.name().to_string();
                r.append(" is required");
                r
            },
            PostError::InvalidRequesterKey =>
                "REQUESTER_NSEC must be a valid nsec or hex secret key".to_string(),
            PostError::InvalidWorkerKey => "WORKER_PUBKEY must be a hex public key".to_string(),
            PostError::InvalidEventPayload => "JOB_EVENT_PAYLOAD must be valid JSON".to_string(),
            PostError::Encrypt => "failed to encrypt job request content".to_string(),
            PostError::Sign => "failed to sign job request event".to_string(),
        }
    }
}

/// The payload of the event that the job runs for: an empty object where none is set.
pub open spec fn event_payload_text(env: Seq<(String, String)>) -> Option<Seq<char>> {
    match config::setting(env, Variable::JobEventPayload) {
        Some(s) => json::json_rewritten(s),
        None => Some("{}"@),
    }
}

/// The first thing that keeps the environment from telling a job.
pub open spec fn post_problem(env: Seq<(String, String)>) -> Option<PostError> {
    if config::setting(env, Variable::NostrRelays) is None {
        Some(PostError::Missing(Variable::NostrRelays))
    } else if config::setting(env, Variable::RequesterNsec) is None {
        Some(PostError::Missing(Variable::RequesterNsec))
    } else if event::parsed_keys(config::setting(env, Variable::RequesterNsec)->0) is None {
        Some(PostError::InvalidRequesterKey)
    } else if config::setting(env, Variable::WorkerPubkey) is None {
        Some(PostError::Missing(Variable::WorkerPubkey))
    } else if !event::is_key_hex(config::setting(env, Variable::WorkerPubkey)->0) {
        Some(PostError::InvalidWorkerKey)
    } else if config::setting(env, Variable::PaymentToken) is None {
        Some(PostError::Missing(Variable::PaymentToken))
    } else if config::setting(env, Variable::JobRepo) is None {
        Some(PostError::Missing(Variable::JobRepo))
    } else if config::setting(env, Variable::JobWorkflow) is None {
        Some(PostError::Missing(Variable::JobWorkflow))
    } else if config::setting(env, Variable::JobName) is None {
        Some(PostError::Missing(Variable::JobName))
    } else if event_payload_text(env) is None {
        Some(PostError::InvalidEventPayload)
    } else {
        None
    }
}

/// The public key of the worker that the job is for.
pub open spec fn worker_of(env: Seq<(String, String)>) -> Seq<char> {
    search::lowercase(config::setting(env, Variable::WorkerPubkey)->0)
}

/// The public key of whoever posts the job.
pub open spec fn requester_of(env: Seq<(String, String)>) -> Seq<char> {
    event::public_key_of(config::setting(env, Variable::RequesterNsec)->0)
}

/// The job as JSON.
pub open spec fn job_text(env: Seq<(String, String)>) -> Seq<char> {
    json::object_text(
        seq![
            json::member(
                "event"@,
                json::json_string(config::setting_or(env, Variable::JobEvent, "push"@)),
            ),
            json::member("event_payload"@, event_payload_text(env)->0),
            json::member(
                "job"@,
                json::json_string(config::setting(env, Variable::JobName)->0),
            ),
            json::member(
                "ref"@,
                json::json_string(config::setting_or(env, Variable::JobRef, "main"@)),
            ),
            json::member(
                "repo"@,
                json::json_string(config::setting(env, Variable::JobRepo)->0),
            ),
            json::member(
                "workflow"@,
                json::json_string(config::setting(env, Variable::JobWorkflow)->0),
            ),
        ],
    )
}

/// The tags of a job request.
pub open spec fn request_tags(worker: Seq<char>, token: Seq<char>) -> Seq<Seq<Seq<char>>> {
    seq![seq!["p"@, worker], seq!["payment"@, token]]
}

/// Whether `p` posts the job that the environment tells: it goes to the relays, is signed by the
/// requester, names the worker and the payment, and the worker reads the job in it.
pub open spec fn posts(p: JobPosting, env: Seq<(String, String)>) -> bool {
    &&& p.relays.deep_view() == text::csv_entries(config::setting(env, Variable::NostrRelays)->0)
    &&& event::is_signed_event(
        p.event,
        config::setting(env, Variable::RequesterNsec)->0,
        JOB_REQUEST_KIND,
        p.event.content@,
        request_tags(worker_of(env), config::setting(env, Variable::PaymentToken)->0),
    )
    &&& forall|receiver: Seq<char>| #[trigger]
        event::is_secret_of(receiver, worker_of(env)) ==> event::nip44_plaintext(
            receiver,
            requester_of(env),
            p.event.content@,
        ) == Some(job_text(env))
}

fn write_job(
    event: &str,
    event_payload: &str,
    job: &str,
    reference: &str,
    repo: &str,
    workflow: &str,
) -> (r: String)
    ensures
        r@ == json::object_text(
            seq![
                json::member("event"@, json::json_string(event@)),
                json::member("event_payload"@, event_payload@),
                json::member("job"@, json::json_string(job@)),
                json::member("ref"@, json::json_string(reference@)),
                json::member("repo"@, json::json_string(repo@)),
                json::member("workflow"@, json::json_string(workflow@)),
            ],
        ),
{
    let mut w = ObjectWriter::new();
    w.string("event", event);
    w.raw("event_payload", event_payload);
    w.string("job", job);
    w.string("ref", reference);
    w.string("repo", repo);
    w.string("workflow", workflow);
    assert(w.members@ =~= seq![
        json::member("event"@, json::json_string(event@)),
        json::member("event_payload"@, event_payload@),
        json::member("job"@, json::json_string(job@)),
        json::member("ref"@, json::json_string(reference@)),
        json::member("repo"@, json::json_string(repo@)),
        json::member("workflow"@, json::json_string(workflow@)),
    ]);
    w.finish()
}

fn read_event_payload(env: &Vec<(String, String)>) -> (r: Option<String>)
    ensures
        text::optional(r) == event_payload_text(env@),
{
    match lookup(env, Variable::JobEventPayload) {
        Some(s) => rewrite_json(s.as_str()),
        None => Some("{}".to_string()),
    }
}

fn required(env: &Vec<(String, String)>, v: Variable) -> (r: Result<String, PostError>)
    ensures
        match r {
            Ok(s) => config::setting(env@, v) == Some(s@),
            Err(e) => e == PostError::Missing(v) && config::setting(env@, v) is None,
        },
{
    match lookup(env, v) {
        Some(s) => Ok(s),
        None => Err(PostError::Missing(v)),
    }
}

/// Makes the job request that the environment tells.
///
/// A job that is told is posted, unless it is too long to be encrypted or the worker's public key
/// belongs to no secret key.
pub fn build_job_posting(env: &Vec<(String, String)>) -> (r: Result<JobPosting, PostError>)
    ensures
        match r {
            Ok(p) => post_problem(env@) is None && posts(p, env@),
            Err(PostError::Encrypt) => {
                &&& post_problem(env@) is None
                &&& event::utf8_len(job_text(env@)) <= event::MAX_PLAINTEXT_BYTES ==> forall|
                    receiver: Seq<char>,
                |
                    !#[trigger] event::is_secret_of(receiver, worker_of(env@))
            },
            Err(PostError::Sign) => false,
            Err(e) => post_problem(env@) == Some(e),
        },
{
    let relays = match required(env, Variable::NostrRelays) {
        Ok(s) => split_csv(s.as_str()),
        Err(e) => {
            return Err(e);
        },
    };
    let nsec = match required(env, Variable::RequesterNsec) {
        Ok(s) => s,
        Err(e) => {
            return Err(e);
        },
    };
    let requester = match parse_keys(nsec.as_str()) {
        Some(keys) => keys,
        None => {
            return Err(PostError::InvalidRequesterKey);
        },
    };
    let worker_hex = match required(env, Variable::WorkerPubkey) {
        Ok(s) => s,
        Err(e) => {
            return Err(e);
        },
    };
    let worker = match parse_public_key(worker_hex.as_str()) {
        Some(key) => key,
        None => {
            return Err(PostError::InvalidWorkerKey);
        },
    };
    let token = match required(env, Variable::PaymentToken) {
        Ok(s) => s,
        Err(e) => {
            return Err(e);
        },
    };
    let repo = match required(env, Variable::JobRepo) {
        Ok(s) => s,
        Err(e) => {
            return Err(e);
        },
    };
    let reference = lookup_or(env, Variable::JobRef, "main");
    let workflow = match required(env, Variable::JobWorkflow) {
        Ok(s) => s,
        Err(e) => {
            return Err(e);
        },
    };
    let job = match required(env, Variable::JobName) {
        Ok(s) => s,
        Err(e) => {
            return Err(e);
        },
    };
    let name = lookup_or(env, Variable::JobEvent, "push");
    let payload = match read_event_payload(env) {
        Some(s) => s,
        None => {
            return Err(PostError::InvalidEventPayload);
        },
    };
    let plaintext = write_job(
        name.as_str(),
        payload.as_str(),
        job.as_str(),
        reference.as_str(),
        repo.as_str(),
        workflow.as_str(),
    );
    assert(plaintext@ == job_text(env@));
    let content = match nip44_encrypt(
        requester.secret_key.as_str(),
        worker.as_str(),
        plaintext.as_str(),
    ) {
        Some(s) => s,
        None => {
            proof {
                lemma_text_has_bytes(plaintext@);
            }
            return Err(PostError::Encrypt);
        },
    };
    let mut tags: Vec<Vec<String>> = Vec::new();
    assert(tags.deep_view() =~= seq![]);
    push_tag(&mut tags, "p", worker.as_str());
    push_tag(&mut tags, "payment", token.as_str());
    assert(tags.deep_view() =~= request_tags(worker@, token@));
    match sign_event(
        requester.secret_key.as_str(),
        JOB_REQUEST_KIND,
        content.as_str(),
        &tags,
    ) {
        Some(event) => Ok(JobPosting { relays, event }),
        None => Err(PostError::Sign),
    }
}

/// A text that is not empty has at least one byte.
proof fn lemma_text_has_bytes(s: Seq<char>)
    requires
        s.len() > 0,
    ensures
        event::utf8_len(s) > 0,
{
    reveal_with_fuel(vstd::utf8::encode_utf8, 1);
}

/// A posted job reaches the worker that it is for: the request is signed by the requester and addressed
/// to the worker, the worker opens it and finds the job in it, and the payment is found. This needs a
/// requester other than the worker, since an event does not keep a tag that refers to its own author.
pub proof fn lemma_posted_job_reaches_worker(
    p: JobPosting,
    env: Seq<(String, String)>,
    worker: WorkerIdentity,
)
    requires
        posts(p, env),
        worker.wf(),
        worker.pubkey@ == worker_of(env),
        worker.pubkey@ != requester_of(env),
    ensures
        p.event.kind == JOB_REQUEST_KIND,
        p.event.pubkey@ == requester_of(env),
        event::is_valid_event(p.event),
        event::is_addressed_to(p.event.tags.deep_view(), worker.pubkey@),
        jobs::decrypted(worker.keys.secret_key@, p.event.pubkey@, p.event.content@) == Some(
            job_text(env),
        ),
        jobs::payment_values(p.event.tags.deep_view()) == seq![
            config::setting(env, Variable::PaymentToken)->0,
        ],
{
    reveal_strlit("p");
    reveal_strlit("payment");
    assert("p"@.len() == 1 && "payment"@.len() == 7);
    let token = config::setting(env, Variable::PaymentToken)->0;
    let tags = request_tags(worker.pubkey@, token);
    let author = requester_of(env);
    let keep = |t: Seq<Seq<char>>| !event::is_recipient_tag(t, author);
    assert(tags.filter(keep) =~= tags) by {
        reveal(Seq::filter);
        assert(tags.drop_last() =~= seq![seq!["p"@, worker.pubkey@]]);
        assert(tags.drop_last().drop_last() =~= seq![]);
        assert(tags.drop_last().drop_last().filter(keep) =~= seq![]);
        assert(tags.drop_last().filter(keep) =~= tags.drop_last());
    }
    let kept = p.event.tags.deep_view();
    assert(kept == tags);
    assert(event::is_recipient_tag(kept[0], worker.pubkey@));
    assert(event::is_secret_of(worker.keys.secret_key@, worker_of(env)));
    let read = |t: Seq<Seq<char>>| jobs::payment_value(t);
    assert(kept.filter_map(read) =~= seq![token]) by {
        assert(kept.drop_last() =~= seq![seq!["p"@, worker.pubkey@]]);
        assert(kept.drop_last().drop_last() =~= seq![]);
        assert(kept.drop_last().drop_last().filter_map(read) =~= seq![]);
        assert(kept.drop_last().filter_map(read) =~= seq![]);
        assert(kept.last() == seq!["payment"@, token]);
    }
}

} // verus!
