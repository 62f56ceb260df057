//! Laws on the posting of jobs: what the environment says is what the worker reads.

use vstd::prelude::*;

use crate::config;
use crate::config::Variable;
use crate::event;
use crate::event::Event;
use crate::json;
use crate::laws::events;
use crate::laws::settings;
use crate::laws::texts;
use crate::post_job;
use crate::post_job::{JobPosting, PostError};
use crate::search;
use crate::text;

verus! {

/// Whether the text of a job has a member with this name and value.
pub open spec fn tells(env: Seq<(String, String)>, name: Seq<char>, value: Seq<char>) -> bool {
    search::contains_text(post_job::job_text(env), events::member_text(name, value))
}

/// The members of the text of a job.
spec fn told(env: Seq<(String, String)>) -> Seq<json::MemberView> {
    seq![
        json::member(
            "event"@,
            json::json_string(config::setting_or(env, Variable::JobEvent, "push"@)),
        ),
        json::member("event_payload"@, post_job::event_payload_text(env)->0),
        json::member("job"@, json::json_string(config::setting(env, Variable::JobName)->0)),
        json::member(
            "ref"@,
            json::json_string(config::setting_or(env, Variable::JobRef, "main"@)),
        ),
        json::member("repo"@, json::json_string(config::setting(env, Variable::JobRepo)->0)),
        json::member(
            "workflow"@,
            json::json_string(config::setting(env, Variable::JobWorkflow)->0),
        ),
    ]
}

proof fn lemma_told(env: Seq<(String, String)>, i: int)
    requires
        0 <= i < 6,
    ensures
        tells(env, told(env)[i].name, told(env)[i].value),
{
    events::lemma_members_are_written(told(env), i);
}

/// A posted job has what the environment says: the repository, the workflow and the name, each of its
/// own variable.
pub proof fn lemma_jobs_are_told(env: Seq<(String, String)>, s: Seq<char>)
    ensures
        settings::says(env, "JOB_REPO"@, s) ==> tells(env, "repo"@, json::json_string(s)),
        settings::says(env, "JOB_WORKFLOW"@, s) ==> tells(env, "workflow"@, json::json_string(s)),
        settings::says(env, "JOB_NAME"@, s) ==> tells(env, "job"@, json::json_string(s)),
{
    if settings::says(env, "JOB_REPO"@, s) {
        settings::lemma_settings_are_found(env, Variable::JobRepo);
        lemma_told(env, 4);
    }
    if settings::says(env, "JOB_WORKFLOW"@, s) {
        settings::lemma_settings_are_found(env, Variable::JobWorkflow);
        lemma_told(env, 5);
    }
    if settings::says(env, "JOB_NAME"@, s) {
        settings::lemma_settings_are_found(env, Variable::JobName);
        lemma_told(env, 2);
    }
}

/// The reference and the event are told as well. They may be missing, and are then `main` and `push`.
pub proof fn lemma_events_of_jobs_are_told(env: Seq<(String, String)>, s: Seq<char>)
    ensures
        settings::gives(env, "JOB_REF"@, "main"@, s) ==> tells(env, "ref"@, json::json_string(s)),
        settings::gives(env, "JOB_EVENT"@, "push"@, s) ==> tells(
            env,
            "event"@,
            json::json_string(s),
        ),
{
    if settings::gives(env, "JOB_REF"@, "main"@, s) {
        settings::lemma_settings_are_found(env, Variable::JobRef);
        lemma_told(env, 3);
    }
    if settings::gives(env, "JOB_EVENT"@, "push"@, s) {
        settings::lemma_settings_are_found(env, Variable::JobEvent);
        lemma_told(env, 0);
    }
}

/// The payload of the event is told, and is an empty object where it is missing.
pub proof fn lemma_payloads_are_told(env: Seq<(String, String)>, s: Seq<char>, payload: Seq<char>)
    ensures
        settings::says(env, "JOB_EVENT_PAYLOAD"@, s) && json::json_rewritten(s) == Some(payload)
            ==> tells(env, "event_payload"@, payload),
        settings::is_silent(env, "JOB_EVENT_PAYLOAD"@) ==> tells(env, "event_payload"@, "{}"@),
{
    settings::lemma_settings_are_found(env, Variable::JobEventPayload);
    lemma_told(env, 1);
}

/// Whether these are the tags of a request: one that names the worker, and one with the payment.
pub open spec fn is_request(
    tags: Seq<Seq<Seq<char>>>,
    worker: Seq<char>,
    token: Seq<char>,
) -> bool {
    &&& tags.len() == 2
    &&& events::named(tags, "p"@) == seq![seq!["p"@, worker]]
    &&& events::named(tags, "payment"@) == seq![seq!["payment"@, token]]
}

/// A signed request names the worker and nobody else, and carries one payment.
pub proof fn lemma_tags_of_requests(author: Seq<char>, worker: Seq<char>, token: Seq<char>)
    requires
        worker != author,
    ensures
        is_request(
            event::signed_tags(post_job::request_tags(worker, token), author),
            worker,
            token,
        ),
{
    let (a, b) = (seq!["p"@, worker], seq!["payment"@, token]);
    lemma_names_differ();
    lemma_pair(a, b);
    assert(a.len() == 2 && a[0] == "p"@ && a[1] == worker);
    assert(b.len() == 2 && b[0] == "payment"@);
    lemma_two_tags(a, b, author);
    lemma_two_names(a, b, "p"@, "payment"@);
}

proof fn lemma_names_differ()
    ensures
        "p"@ != "payment"@,
{
    reveal_strlit("p");
    reveal_strlit("payment");
    assert("p"@.len() == 1 && "payment"@.len() == 7);
}

proof fn lemma_pair(a: Seq<Seq<char>>, b: Seq<Seq<char>>)
    ensures
        seq![a, b] == seq![a] + seq![b],
{
    assert(seq![a, b] =~= seq![a] + seq![b]);
}

proof fn lemma_two_tags(a: Seq<Seq<char>>, b: Seq<Seq<char>>, author: Seq<char>)
    requires
        !event::is_recipient_tag(a, author),
        !event::is_recipient_tag(b, author),
    ensures
        event::signed_tags(seq![a] + seq![b], author) == seq![a] + seq![b],
{
    let keep = |t: Seq<Seq<char>>| !event::is_recipient_tag(t, author);
    Seq::filter_distributes_over_add(seq![a], seq![b], keep);
    texts::lemma_filter_one(a, keep);
    texts::lemma_filter_one(b, keep);
}

proof fn lemma_two_names(a: Seq<Seq<char>>, b: Seq<Seq<char>>, m: Seq<char>, n: Seq<char>)
    requires
        m != n,
        a.len() > 0 && a[0] == m,
        b.len() > 0 && b[0] == n,
    ensures
        events::named(seq![a] + seq![b], m) == seq![a],
        events::named(seq![a] + seq![b], n) == seq![b],
        (seq![a] + seq![b]).len() == 2,
{
    events::lemma_named_in_both(seq![a], seq![b], m);
    events::lemma_named_in_both(seq![a], seq![b], n);
    events::lemma_all_named(seq![a], m);
    events::lemma_none_named(seq![b], m);
    events::lemma_none_named(seq![a], n);
    events::lemma_all_named(seq![b], n);
    assert(seq![a] + Seq::<Seq<Seq<char>>>::empty() =~= seq![a]);
    assert(Seq::<Seq<Seq<char>>>::empty() + seq![b] =~= seq![b]);
}

/// Where a job is posted and by whom: it goes to all relays of the environment, it is signed with the
/// key of the requester, it is for the worker alone, whose key is written in small letters, it carries
/// the payment, and the worker reads the job in it.
pub proof fn lemma_where_jobs_are_posted(
    p: JobPosting,
    env: Seq<(String, String)>,
    relays: Seq<char>,
    key: Seq<char>,
    worker: Seq<char>,
    token: Seq<char>,
    receiver: Seq<char>,
)
    requires
        post_job::posts(p, env),
        settings::says(env, "NOSTR_RELAYS"@, relays),
        settings::says(env, "REQUESTER_NSEC"@, key),
        settings::says(env, "WORKER_PUBKEY"@, worker),
        settings::says(env, "PAYMENT_TOKEN"@, token),
        search::lowercase(worker) != event::public_key_of(key),
    ensures
        are_entries(p.relays.deep_view(), relays),
        p.event.kind == 5100,
        is_author(p.event, key),
        is_request(p.event.tags.deep_view(), search::lowercase(worker), token),
        event::is_secret_of(receiver, search::lowercase(worker)) ==> event::nip44_plaintext(
            receiver,
            event::public_key_of(key),
            p.event.content@,
        ) == Some(post_job::job_text(env)),
{
    lemma_set(env, Variable::NostrRelays, relays);
    lemma_set(env, Variable::RequesterNsec, key);
    lemma_set(env, Variable::WorkerPubkey, worker);
    lemma_set(env, Variable::PaymentToken, token);
    lemma_posted(p, env, relays, key, search::lowercase(worker), token, receiver);
}

proof fn lemma_set(env: Seq<(String, String)>, v: Variable, s: Seq<char>)
    requires
        settings::says(env, config::variable_name(v), s),
    ensures
        config::setting(env, v) == Some(s),
{
    settings::lemma_settings_are_found(env, v);
}

proof fn lemma_posted(
    p: JobPosting,
    env: Seq<(String, String)>,
    relays: Seq<char>,
    key: Seq<char>,
    worker: Seq<char>,
    token: Seq<char>,
    receiver: Seq<char>,
)
    requires
        post_job::posts(p, env),
        config::setting(env, Variable::NostrRelays) == Some(relays),
        config::setting(env, Variable::RequesterNsec) == Some(key),
        post_job::worker_of(env) == worker,
        config::setting(env, Variable::PaymentToken) == Some(token),
        worker != event::public_key_of(key),
    ensures
        are_entries(p.relays.deep_view(), relays),
        p.event.kind == 5100,
        is_author(p.event, key),
        is_request(p.event.tags.deep_view(), worker, token),
        event::is_secret_of(receiver, worker) ==> event::nip44_plaintext(
            receiver,
            event::public_key_of(key),
            p.event.content@,
        ) == Some(post_job::job_text(env)),
{
    lemma_tags_of_requests(event::public_key_of(key), worker, token);
}

/// Whether these are the entries of a list.
pub open spec fn are_entries(entries: Seq<Seq<char>>, list: Seq<char>) -> bool {
    entries == text::csv_entries(list)
}

/// Whether an event is signed by the owner of a key.
pub open spec fn is_author(e: Event, key: Seq<char>) -> bool {
    e.pubkey@ == event::public_key_of(key)
}

/// A job that lacks something required is not posted.
pub proof fn lemma_what_a_job_needs(env: Seq<(String, String)>, name: Seq<char>)
    requires
        settings::is_silent(env, name),
        ({
            ||| name == "NOSTR_RELAYS"@
            ||| name == "REQUESTER_NSEC"@
            ||| name == "WORKER_PUBKEY"@
            ||| name == "PAYMENT_TOKEN"@
            ||| name == "JOB_REPO"@
            ||| name == "JOB_WORKFLOW"@
            ||| name == "JOB_NAME"@
        }),
    ensures
        post_job::post_problem(env) is Some,
{
    if name == "NOSTR_RELAYS"@ {
        settings::lemma_settings_are_found(env, Variable::NostrRelays);
    } else if name == "REQUESTER_NSEC"@ {
        settings::lemma_settings_are_found(env, Variable::RequesterNsec);
    } else if name == "WORKER_PUBKEY"@ {
        settings::lemma_settings_are_found(env, Variable::WorkerPubkey);
    } else if name == "PAYMENT_TOKEN"@ {
        settings::lemma_settings_are_found(env, Variable::PaymentToken);
    } else if name == "JOB_REPO"@ {
        settings::lemma_settings_are_found(env, Variable::JobRepo);
    } else if name == "JOB_WORKFLOW"@ {
        settings::lemma_settings_are_found(env, Variable::JobWorkflow);
    } else {
        settings::lemma_settings_are_found(env, Variable::JobName);
    }
}

/// An error that says that a variable is missing is right: the variable is not set.
pub proof fn lemma_missing_variables_are_not_set(env: Seq<(String, String)>, v: Variable)
    requires
        post_job::post_problem(env) == Some(PostError::Missing(v)),
    ensures
        settings::is_silent(env, config::variable_name(v)),
{
    settings::lemma_settings_are_found(env, v);
}

/// An error about a key or the payload is right as well.
pub proof fn lemma_refused_variables_are_not_usable(
    env: Seq<(String, String)>,
    key: Seq<char>,
    worker: Seq<char>,
    payload: Seq<char>,
)
    requires
        settings::says(env, "REQUESTER_NSEC"@, key),
        settings::says(env, "WORKER_PUBKEY"@, worker),
        settings::says(env, "JOB_EVENT_PAYLOAD"@, payload),
    ensures
        post_job::post_problem(env) == Some(PostError::InvalidRequesterKey)
            ==> event::parsed_keys(key) is None,
        post_job::post_problem(env) == Some(PostError::InvalidWorkerKey) ==> !event::is_key_hex(
            worker,
        ),
        post_job::post_problem(env) == Some(PostError::InvalidEventPayload)
            ==> json::json_rewritten(payload) is None,
        post_job::post_problem(env) is None ==> event::parsed_keys(key) is Some
            && event::is_key_hex(worker) && json::json_rewritten(payload) is Some,
{
    settings::lemma_settings_are_found(env, Variable::RequesterNsec);
    settings::lemma_settings_are_found(env, Variable::WorkerPubkey);
    settings::lemma_settings_are_found(env, Variable::JobEventPayload);
}

} // verus!
