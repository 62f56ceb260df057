//! Laws on job requests: which ones are accepted, for whom they are, and how they are answered.

use vstd::prelude::*;

use crate::dispatch;
use crate::dispatch::JobStage;
use crate::event;
use crate::jobs;
use crate::jobs::{JobBilling, JobError, JobStatus, WorkerJobRequest};
use crate::laws::texts;
use crate::laws::wallet;
use crate::listener;
use crate::loom::WorkerIdentity;
use crate::number;
use crate::payments::BillingOutcome;
use crate::search;
use crate::text;

verus! {

/// A text is blank exactly where it is nothing but white space.
pub proof fn lemma_blank_texts(s: Seq<char>)
    ensures
        jobs::is_blank(s) <==> texts::is_white(s),
    decreases s.len(),
{
    let none: Seq<char> = seq![];
    if texts::is_white(s) {
        texts::lemma_trim_takes_white_space_off(s, none, none);
        assert(s + none + none =~= s);
    } else {
        let i = choose|i: int| 0 <= i < s.len() && !text::is_whitespace(#[trigger] s[i]);
        lemma_bounds(s, i, i);
    }
}

/// A text with a character that is no white space is not trimmed away.
proof fn lemma_bounds(s: Seq<char>, i: int, j: int)
    requires
        0 <= i <= j < s.len(),
        !text::is_whitespace(s[i]),
        !text::is_whitespace(s[j]),
    ensures
        text::trim_spec(s).len() > 0,
    decreases i + s.len() - j,
{
    let white = text::CharClass::Whitespace;
    if exists|k: int| 0 <= k < i && !text::is_whitespace(#[trigger] s[k]) {
        let k = choose|k: int| 0 <= k < i && !text::is_whitespace(#[trigger] s[k]);
        lemma_bounds(s, k, j);
    } else if exists|k: int| j < k < s.len() && !text::is_whitespace(#[trigger] s[k]) {
        let k = choose|k: int| j < k < s.len() && !text::is_whitespace(#[trigger] s[k]);
        lemma_bounds(s, i, k);
    } else {
        let head = s.take(i);
        let core = s.subrange(i, j + 1);
        let tail = s.skip(j + 1);
        assert(s =~= head + core + tail);
        assert(core[0] == s[i] && core.last() == s[j]);
        assert forall|k: int| 0 <= k < tail.len() implies text::is_whitespace(#[trigger] tail[k]) by {
            assert(tail[k] == s[j + 1 + k]);
        }
        texts::lemma_trim_takes_white_space_off(head, core, tail);
    }
}

/// Whether a repository is `nostr://` with something behind it, but for white space around it.
pub open spec fn is_ngit(repo: Seq<char>) -> bool {
    exists|head: Seq<char>, path: Seq<char>, tail: Seq<char>|
        {
            &&& texts::is_white(head) && texts::is_white(tail)
            &&& path.len() > 0 && !text::is_whitespace(path.last())
            &&& repo == #[trigger] (head + ("nostr://"@ + path) + tail)
        }
}

/// An ngit repository is recognised.
pub proof fn lemma_ngit_repositories(head: Seq<char>, path: Seq<char>, tail: Seq<char>)
    requires
        texts::is_white(head),
        texts::is_white(tail),
        path.len() > 0,
        !text::is_whitespace(path.last()),
    ensures
        jobs::is_ngit_url(head + ("nostr://"@ + path) + tail),
{
    reveal_strlit("nostr://");
    let core = "nostr://"@ + path;
    assert(core[0] == 'n');
    assert(core.last() == path.last());
    texts::lemma_trim_takes_white_space_off(head, core, tail);
    assert(core.take(8) =~= "nostr://"@);
}

/// Nothing else is taken for one: what is recognised begins with `nostr://` and goes on, but for white
/// space around it.
pub proof fn lemma_only_ngit_repositories(repo: Seq<char>)
    requires
        jobs::is_ngit_url(repo),
    ensures
        "nostr://"@.is_prefix_of(text::trim_spec(repo)),
        text::trim_spec(repo).len() > "nostr://"@.len(),
        !texts::is_white(repo),
{
    lemma_blank_texts(repo);
}

/// Which jobs are accepted: those with an ngit repository, a reference, a workflow, a job and an event,
/// none of which is blank. The first of these that is missing is the reason for refusing the others.
pub proof fn lemma_accepted_jobs(job: WorkerJobRequest)
    ensures
        jobs::job_problem(job) is None <==> jobs::is_ngit_url(job.repo@) && !texts::is_white(
            job.ref_@,
        ) && !texts::is_white(job.workflow@) && !texts::is_white(job.job@) && !texts::is_white(
            job.event@,
        ),
        texts::is_white(job.repo@) <==> jobs::job_problem(job) == Some(JobError::RepoRequired),
        !texts::is_white(job.repo@) && !jobs::is_ngit_url(job.repo@) <==> jobs::job_problem(job)
            == Some(JobError::RepoNotNgit),
        jobs::is_ngit_url(job.repo@) && texts::is_white(job.ref_@) ==> jobs::job_problem(job)
            == Some(JobError::RefRequired),
        jobs::is_ngit_url(job.repo@) && !texts::is_white(job.ref_@) && texts::is_white(job.workflow@)
            ==> jobs::job_problem(job) == Some(JobError::WorkflowRequired),
        jobs::is_ngit_url(job.repo@) && !texts::is_white(job.ref_@) && !texts::is_white(
            job.workflow@,
        ) && texts::is_white(job.job@) ==> jobs::job_problem(job) == Some(JobError::JobRequired),
        jobs::is_ngit_url(job.repo@) && !texts::is_white(job.ref_@) && !texts::is_white(
            job.workflow@,
        ) && !texts::is_white(job.job@) && texts::is_white(job.event@) ==> jobs::job_problem(job)
            == Some(JobError::EventRequired),
{
    lemma_blank_texts(job.repo@);
    lemma_blank_texts(job.ref_@);
    lemma_blank_texts(job.workflow@);
    lemma_blank_texts(job.job@);
    lemma_blank_texts(job.event@);
}

/// The payments of a request are the values of its payment tags, in order: the tags of two lists have
/// those of the first and then those of the second, a tag with that name and one value has the value,
/// and any other tag has none.
pub proof fn lemma_payments_of_tags(
    a: Seq<Seq<Seq<char>>>,
    b: Seq<Seq<Seq<char>>>,
    t: Seq<Seq<char>>,
)
    ensures
        jobs::payment_values(a + b) == jobs::payment_values(a) + jobs::payment_values(b),
        t.len() == 2 && t[0] == "payment"@ ==> jobs::payment_values(seq![t]) == seq![t[1]],
        t.len() != 2 || t[0] != "payment"@ ==> jobs::payment_values(seq![t])
            == Seq::<Seq<char>>::empty(),
        jobs::payment_values(Seq::<Seq<Seq<char>>>::empty()) == Seq::<Seq<char>>::empty(),
{
    let f = |tag: Seq<Seq<char>>| jobs::payment_value(tag);
    wallet::lemma_picked_from_both(a, b, f);
    wallet::lemma_picked_from_one(t, f);
}

/// Whether the worker at `i` is the first one that an event with these tags names.
pub open spec fn is_first_named(
    workers: Seq<WorkerIdentity>,
    tags: Seq<Seq<Seq<char>>>,
    i: int,
) -> bool {
    &&& 0 <= i < workers.len()
    &&& names_recipient(tags, workers[i].pubkey@)
    &&& forall|j: int| 0 <= j < i ==> !names_recipient(tags, (#[trigger] workers[j]).pubkey@)
}

/// Whether one of the tags names a public key as a recipient.
pub open spec fn names_recipient(tags: Seq<Seq<Seq<char>>>, pubkey: Seq<char>) -> bool {
    exists|i: int|
        0 <= i < tags.len() && (#[trigger] tags[i]).len() >= 2 && tags[i][0] == "p"@ && tags[i][1]
            == pubkey
}

/// An event is for the first worker that it names as a recipient, and for none where it names none.
pub proof fn lemma_events_are_for_the_first_named(
    workers: Seq<WorkerIdentity>,
    tags: Seq<Seq<Seq<char>>>,
)
    ensures
        forall|i: int| #[trigger]
            is_first_named(workers, tags, i) ==> listener::addressed_slot(workers, tags) == Some(
                workers[i].slot,
            ),
        listener::addressed_slot(workers, tags) is Some ==> exists|i: int| #[trigger]
            is_first_named(workers, tags, i),
        listener::addressed_slot(workers, tags) is None ==> forall|i: int|
            0 <= i < workers.len() ==> !names_recipient(tags, (#[trigger] workers[i]).pubkey@),
    decreases workers.len(),
{
    assert forall|k: Seq<char>| #[trigger] event::is_addressed_to(tags, k) <==> names_recipient(
        tags,
        k,
    ) by {
        if event::is_addressed_to(tags, k) {
            let i = choose|i: int|
                0 <= i < tags.len() && event::is_recipient_tag(#[trigger] tags[i], k);
            assert(tags[i][1] == k);
        }
        if names_recipient(tags, k) {
            let i = choose|i: int|
                0 <= i < tags.len() && (#[trigger] tags[i]).len() >= 2 && tags[i][0] == "p"@
                    && tags[i][1] == k;
            assert(event::is_recipient_tag(tags[i], k));
        }
    }
    if workers.len() > 0 {
        let t = workers.drop_first();
        lemma_events_are_for_the_first_named(t, tags);
        if event::is_addressed_to(tags, workers[0].pubkey@) {
            assert(is_first_named(workers, tags, 0));
            assert forall|i: int| #[trigger] is_first_named(workers, tags, i) implies i == 0 by {
                if i > 0 {
                    assert(!names_recipient(tags, workers[0].pubkey@));
                }
            }
        } else {
            assert forall|i: int| #[trigger] is_first_named(workers, tags, i) implies
                is_first_named(t, tags, i - 1) by {
                assert(i > 0);
                assert forall|j: int| 0 <= j < i - 1 implies !names_recipient(
                    tags,
                    (#[trigger] t[j]).pubkey@,
                ) by {
                    assert(t[j] == workers[j + 1]);
                }
            }
            if listener::addressed_slot(t, tags) is Some {
                let i = choose|i: int| #[trigger] is_first_named(t, tags, i);
                assert forall|j: int| 0 <= j < i + 1 implies !names_recipient(
                    tags,
                    (#[trigger] workers[j]).pubkey@,
                ) by {
                    if j > 0 {
                        assert(t[j - 1] == workers[j]);
                    }
                }
                assert(workers[i + 1] == t[i]);
                assert(is_first_named(workers, tags, i + 1));
            } else {
                assert forall|i: int| 0 <= i < workers.len() implies !names_recipient(
                    tags,
                    (#[trigger] workers[i]).pubkey@,
                ) by {
                    if i > 0 {
                        assert(t[i - 1] == workers[i]);
                    }
                }
            }
        }
    }
}

/// The content of a request is opened by the newer scheme where that works, and by the older one only
/// where it does not; and a request that neither opens stays closed.
pub proof fn lemma_requests_are_opened(
    secret_key: Seq<char>,
    sender: Seq<char>,
    content: Seq<char>,
    s: Seq<char>,
)
    ensures
        event::nip44_plaintext(secret_key, sender, content) == Some(s) ==> jobs::decrypted(
            secret_key,
            sender,
            content,
        ) == Some(s),
        event::nip44_plaintext(secret_key, sender, content) is None && event::nip04_plaintext(
            secret_key,
            sender,
            content,
        ) == Some(s) ==> jobs::decrypted(secret_key, sender, content) == Some(s),
        event::nip44_plaintext(secret_key, sender, content) is None && event::nip04_plaintext(
            secret_key,
            sender,
            content,
        ) is None ==> jobs::decrypted(secret_key, sender, content) is None,
{
}

/// A refused request is answered by its own worker as not valid, with the reason as its log, and
/// nothing is billed, no time is claimed to have passed, and no error is added.
pub proof fn lemma_refusals(next: JobStage, slot: usize, reason: Seq<char>)
    requires
        dispatch::refuses(next, slot, reason),
    ensures
        next matches JobStage::Publish { slot: s, response } && {
            &&& s == slot
            &&& response.status == JobStatus::Invalid
            &&& response.log_tail@ == reason
            &&& response.elapsed_seconds == 0
            &&& response.exit_code is None
            &&& response.billing is None
            &&& response.result_errors@.len() == 0
        },
{
}

/// A bill states what the job cost: the times and the cost of the outcome, the mint and unit of the
/// payment, and the change where there is some.
pub proof fn lemma_bills_state_the_outcome(
    billing: JobBilling,
    outcome: BillingOutcome,
    mint: Seq<char>,
    unit: Seq<char>,
    change: Option<Seq<char>>,
)
    requires
        dispatch::is_billing(billing, outcome, mint, unit, change),
    ensures
        billing.duration == outcome.duration,
        billing.billable_duration == outcome.billable_duration,
        billing.cost == outcome.cost,
        billing.mint@ == mint,
        billing.unit@ == unit,
        change matches Some(c) ==> (billing.change matches Some(d) && d@ == c),
        change is None ==> billing.change is None,
{
}

/// The log of a job that took too long says after how many seconds it was stopped.
pub proof fn lemma_timeouts_are_told(seconds: nat)
    ensures
        search::contains_text(dispatch::timeout_text(seconds), number::decimal(seconds)),
        "job timed out after "@.is_prefix_of(dispatch::timeout_text(seconds)),
        " seconds"@.is_suffix_of(dispatch::timeout_text(seconds)),
{
    let head = "job timed out after "@;
    let tail = " seconds"@;
    let s = dispatch::timeout_text(seconds);
    texts::lemma_part_is_found(head, number::decimal(seconds), tail);
    assert(head =~= s.take(head.len() as int));
    assert(tail =~= s.skip(s.len() - tail.len()));
}

} // verus!
