//! Laws on the handling of a job request, of the operations themselves: what each of them returns.

use vstd::prelude::*;

use crate::clock;
use crate::dispatch;
use crate::dispatch::{JobStage, RunOutcome};
use crate::event;
use crate::event::Event;
use crate::jobs;
use crate::jobs::{JobStatus, WorkerJobRequest, WorkerJobResponse};
use crate::laws::billing;
use crate::laws::requests;
use crate::laws::texts;
use crate::listener::PoolController;
use crate::number;
use crate::payments;
use crate::payments::{BillingOutcome, ClaimedPayment, PaymentAuthorization, PaymentError};
use crate::text;

verus! {

/// Whether a request is answered as not valid, with this reason, and nothing is billed.
pub open spec fn answers_invalid(next: JobStage, slot: usize, reason: Seq<char>) -> bool {
    next matches JobStage::Publish { slot: s, response } && {
        &&& s == slot
        &&& response.status == JobStatus::Invalid
        &&& response.log_tail@ == reason
        &&& response.elapsed_seconds == 0
        &&& response.exit_code is None
        &&& response.billing is None
        &&& response.result_errors@.len() == 0
    }
}

/// An event of another kind is passed over, and so is one that names none of the workers.
pub proof fn lemma_other_events_are_passed_over(pool: &PoolController, e: &Event, r: JobStage)
    requires
        pool.wf(),
        call_ensures(PoolController::handle_job_event, (pool, e), r),
    ensures
        e.kind != 5100 ==> r is Finished,
        (forall|i: int|
            0 <= i < pool.workers@.len() ==> !requests::names_recipient(
                e.tags.deep_view(),
                (#[trigger] pool.workers@[i]).pubkey@,
            )) ==> r is Finished,
{
    let tags = e.tags.deep_view();
    requests::lemma_events_are_for_the_first_named(pool.workers@, tags);
}

/// A request is opened with the key of the first worker that it names: the content is read by the newer
/// scheme or else by the older one, and a request that neither opens is answered.
pub proof fn lemma_requests_are_read(pool: &PoolController, e: &Event, i: int, r: JobStage)
    requires
        pool.wf(),
        call_ensures(PoolController::handle_job_event, (pool, e), r),
        e.kind == 5100,
        requests::is_first_named(pool.workers@, e.tags.deep_view(), i),
    ensures
        ({
            let slot = pool.workers@[i].slot;
            let key = pool.workers@[slot as int].keys.secret_key@;
            let new = event::nip44_plaintext(key, e.pubkey@, e.content@);
            let old = event::nip04_plaintext(key, e.pubkey@, e.content@);
            &&& new matches Some(s) ==> (r matches JobStage::Read { slot: n, plaintext } && n
                == slot && plaintext@ == s)
            &&& new is None && old is Some ==> (r matches JobStage::Read { slot: n, plaintext }
                && n == slot && plaintext@ == old->0)
            &&& new is None && old is None ==> answers_invalid(
                r,
                slot,
                "failed to decrypt job content"@,
            )
        }),
{
    requests::lemma_events_are_for_the_first_named(pool.workers@, e.tags.deep_view());
}

/// A job that was read is claimed where it is acceptable and has exactly one payment: with its own
/// fields, the identifier of the request, the token without the white space around it, and the key of the
/// worker of the slot.
pub proof fn lemma_acceptable_jobs_are_claimed(
    pool: &PoolController,
    e: &Event,
    slot: usize,
    d: WorkerJobRequest,
    r: JobStage,
)
    requires
        slot < pool.workers@.len(),
        call_ensures(PoolController::job_read, (pool, e, slot, Some(d)), r),
        jobs::is_ngit_url(d.repo@),
        !texts::is_white(d.ref_@),
        !texts::is_white(d.workflow@),
        !texts::is_white(d.job@),
        !texts::is_white(d.event@),
        jobs::payment_values(e.tags.deep_view()).len() == 1,
        !texts::is_white(jobs::payment_values(e.tags.deep_view())[0]),
    ensures
        r matches JobStage::Claim { slot: n, job, token, signing_key } && {
            &&& n == slot
            &&& job.request_event_id@ == e.id@
            &&& job.repo@ == d.repo@
            &&& job.ref_@ == d.ref_@
            &&& job.workflow@ == d.workflow@
            &&& job.job@ == d.job@
            &&& job.event@ == d.event@
            &&& job.event_payload == d.event_payload
            &&& token@ == text::trim_spec(jobs::payment_values(e.tags.deep_view())[0])
            &&& signing_key@ == pool.workers@[slot as int].keys.secret_key@
        },
{
    requests::lemma_accepted_jobs(d);
    requests::lemma_blank_texts(jobs::payment_values(e.tags.deep_view())[0]);
}

/// A request whose content is no job, or whose job or payment is not acceptable, is answered with the
/// reason.
pub proof fn lemma_other_jobs_are_answered(
    pool: &PoolController,
    e: &Event,
    slot: usize,
    decoded: Option<WorkerJobRequest>,
    r: JobStage,
)
    requires
        slot < pool.workers@.len(),
        call_ensures(PoolController::job_read, (pool, e, slot, decoded), r),
    ensures
        decoded is None ==> answers_invalid(r, slot, "job payload must be valid JSON"@),
        decoded matches Some(d) ==> {
            let values = jobs::payment_values(e.tags.deep_view());
            let fits = jobs::job_problem(d) is None;
            &&& texts::is_white(d.repo@) ==> answers_invalid(r, slot, "repo is required"@)
            &&& !texts::is_white(d.repo@) && !jobs::is_ngit_url(d.repo@) ==> answers_invalid(
                r,
                slot,
                "repo must be an ngit nostr:// clone URL"@,
            )
            &&& fits && values.len() != 1 ==> answers_invalid(
                r,
                slot,
                "job request must include exactly one payment tag"@,
            )
            &&& fits && values.len() == 1 && texts::is_white(values[0]) ==> answers_invalid(
                r,
                slot,
                "payment tag token cannot be empty"@,
            )
        },
{
    if let Some(d) = decoded {
        requests::lemma_accepted_jobs(d);
        let values = jobs::payment_values(e.tags.deep_view());
        if values.len() == 1 {
            requests::lemma_blank_texts(values[0]);
        }
    }
}

/// A payment that could not be claimed is answered with what went wrong. One that was claimed runs the
/// job, in the slot and with the payment, for the price that is configured for its mint and unit; or it
/// is answered.
pub proof fn lemma_claimed_payments_run_jobs(
    pool: &PoolController,
    slot: usize,
    job: WorkerJobRequest,
    claimed: Result<ClaimedPayment, PaymentError>,
    r: JobStage,
)
    requires
        call_ensures(PoolController::payment_claimed, (pool, slot, job, claimed), r),
    ensures
        claimed matches Err(e) ==> answers_invalid(r, slot, payments::payment_error_text(e)),
        claimed matches Ok(payment) ==> {
            &&& r is Run || (r matches JobStage::Publish { slot: s, response } && s == slot
                && response.status == JobStatus::Invalid && response.billing is None)
            &&& r matches JobStage::Run { slot: s, job: j, authorization } ==> {
                let prices = pool.config.worker_prices@;
                let minimum = pool.config.worker_min_duration;
                let maximum = pool.config.worker_max_duration;
                let price = payments::price_for(prices, payment.mint_url@, payment.unit@);
                &&& s == slot && j == job
                &&& authorization.payment == payment
                &&& payments::is_authorization(
                    authorization,
                    prices,
                    minimum as nat,
                    maximum as nat,
                )
                &&& price is Some
            }
        },
{
}

/// What decides about a payment that was claimed: it has to be for a mint and a unit that have a price,
/// and to cover the minimum duration at that price. A payment that does so runs the job, and another one
/// is answered with what is missing.
pub proof fn lemma_what_decides_about_payments(
    pool: &PoolController,
    slot: usize,
    job: WorkerJobRequest,
    payment: ClaimedPayment,
    r: JobStage,
)
    requires
        call_ensures(
            PoolController::payment_claimed,
            (pool, slot, job, Ok::<ClaimedPayment, PaymentError>(payment)),
            r,
        ),
    ensures
        ({
            let price = payments::price_for(
                pool.config.worker_prices@,
                payment.mint_url@,
                payment.unit@,
            );
            let minimum = pool.config.worker_min_duration as nat;
            &&& price is None ==> answers_invalid(
                r,
                slot,
                "no configured price for mint "@ + payment.mint_url@ + " and unit "@
                    + payment.unit@,
            )
            &&& price matches Some(p) ==> (payments::price_value(p) matches Some(n) ==> {
                &&& minimum * n <= payment.amount ==> r is Run
                &&& payment.amount < minimum * n <= u64::MAX ==> answers_invalid(
                    r,
                    slot,
                    "payment below minimum: received "@ + number::decimal(payment.amount as nat)
                        + " "@ + payment.unit@ + ", required "@ + number::decimal(minimum * n)
                        + " "@ + payment.unit@,
                )
            })
        }),
{
    let price = payments::price_for(
        pool.config.worker_prices@,
        payment.mint_url@,
        payment.unit@,
    );
    let minimum = pool.config.worker_min_duration as nat;
    if r is Publish {
        assert(dispatch::refuses_payment(r, slot, price, payment, minimum));
        let e = choose|e: PaymentError| #[trigger]
            dispatch::is_refusal_reason(price, payment, minimum, e) && dispatch::refuses(
                r,
                slot,
                payments::payment_error_text(e),
            );
        assert(answers_invalid(r, slot, payments::payment_error_text(e)));
    }
}

/// A job that was answered, or could not be run, is settled over the time that it took, which is none
/// where it could not be run.
pub proof fn lemma_finished_jobs_are_settled(
    pool: &PoolController,
    slot: usize,
    a: PaymentAuthorization,
    response: WorkerJobResponse,
    message: String,
    answered: JobStage,
    failed: JobStage,
)
    requires
        call_ensures(
            PoolController::job_run,
            (pool, slot, a, RunOutcome::Answered(response)),
            answered,
        ),
        call_ensures(PoolController::job_run, (pool, slot, a, RunOutcome::Failed(message)), failed),
    ensures
        pool.settles(slot, response, a, answered),
        exists|own: WorkerJobResponse|
            #![trigger pool.settles(slot, own, a, failed)]
            {
                &&& pool.settles(slot, own, a, failed)
                &&& own.status == JobStatus::Failure
                &&& own.log_tail@ == message@
                &&& own.elapsed_seconds == 0
                &&& own.exit_code is None
                &&& own.billing is None
                &&& own.result_errors@.len() == 0
            },
{
}

/// A job that took too long counts as one that took the time that was paid for: it is told so, its
/// container is made again, and then it is settled, whatever became of the container.
pub proof fn lemma_late_jobs_are_stopped_and_settled(
    pool: &PoolController,
    slot: usize,
    a: PaymentAuthorization,
    respawned: Result<(), String>,
    late: JobStage,
    response: WorkerJobResponse,
    settled: JobStage,
)
    requires
        call_ensures(PoolController::job_run, (pool, slot, a, RunOutcome::TimedOut), late),
        call_ensures(
            PoolController::slot_respawned,
            (pool, slot, response, a, respawned),
            settled,
        ),
    ensures
        late matches JobStage::Respawn { slot: s, response: own, authorization } && {
            &&& s == slot
            &&& authorization == a
            &&& own.status == JobStatus::Timeout
            &&& own.elapsed_seconds == clock::secs_of_duration(a.timeout)
            &&& own.log_tail@ == "job timed out after "@ + number::decimal(
                clock::secs_of_duration(a.timeout) as nat,
            ) + " seconds"@
            &&& own.billing is None
            &&& own.exit_code is None
        },
        pool.settles(slot, response, a, settled),
{
}

/// The result is published with its bill, whether or not change could be given: with the token where it
/// could, and with one more error where it could not. Everything else stays as it was.
pub proof fn lemma_results_are_published_with_change(
    pool: &PoolController,
    slot: usize,
    response: WorkerJobResponse,
    outcome: BillingOutcome,
    mint_url: String,
    unit: String,
    change: Result<String, PaymentError>,
    r: JobStage,
)
    requires
        call_ensures(
            PoolController::change_given,
            (pool, slot, response, outcome, mint_url, unit, change),
            r,
        ),
    ensures
        r matches JobStage::Publish { slot: s, response: own } && {
            &&& s == slot
            &&& own.status == response.status
            &&& own.exit_code == response.exit_code
            &&& own.elapsed_seconds == response.elapsed_seconds
            &&& own.log_tail@ == response.log_tail@
            &&& own.billing matches Some(b)
            &&& b.duration == outcome.duration
            &&& b.billable_duration == outcome.billable_duration
            &&& b.cost == outcome.cost
            &&& b.mint@ == mint_url@
            &&& b.unit@ == unit@
            &&& change matches Ok(token) ==> (b.change matches Some(c) && c@ == token@)
                && own.result_errors@ == response.result_errors@
            &&& change matches Err(e) ==> b.change is None && own.result_errors@.len()
                == response.result_errors@.len() + 1 && own.result_errors@.drop_last()
                == response.result_errors@ && own.result_errors@.last()@
                == payments::payment_error_text(e)
        },
{
    if let JobStage::Publish { slot: s, response: own } = r {
        if let Some(b) = own.billing {
            if let Ok(token) = change {
                assert(text::optional(b.change) == Some(token@));
            } else {
                assert(text::optional(b.change) is None);
            }
        }
    }
}

/// A whole job, from the answer of the worker to the published result: where the payment is more than the
/// billable time costs, the change that is given is what remains, and the published bill states the cost
/// and the change.
pub proof fn lemma_what_remains_is_given_back(
    pool: &PoolController,
    slot: usize,
    a: PaymentAuthorization,
    response: WorkerJobResponse,
    billable: nat,
    settled: JobStage,
    token: String,
    published: JobStage,
)
    requires
        call_ensures(
            PoolController::job_run,
            (pool, slot, a, RunOutcome::Answered(response)),
            settled,
        ),
        billable >= response.elapsed_seconds,
        billable >= pool.config.worker_min_duration,
        billable == response.elapsed_seconds || billable == pool.config.worker_min_duration,
        billable * a.price_per_second < a.payment.amount,
        settled matches JobStage::GiveChange { slot: s, response: r, outcome, mint_url, unit }
            && call_ensures(
            PoolController::change_given,
            (pool, s, r, outcome, mint_url, unit, Ok::<String, PaymentError>(token)),
            published,
        ),
    ensures
        settled matches JobStage::GiveChange { outcome, .. } && outcome.change_amount
            == a.payment.amount - billable * a.price_per_second,
        published matches JobStage::Publish { slot: s, response: own } && {
            &&& s == slot
            &&& own.status == response.status
            &&& own.billing matches Some(b)
            &&& b.cost == billable * a.price_per_second
            &&& b.mint@ == a.payment.mint_url@
            &&& b.unit@ == a.payment.unit@
            &&& b.change matches Some(c)
            &&& c@ == token@
        },
{
    billing::lemma_how_bills_are_settled(*pool, slot, response, a, settled, billable);
    if let JobStage::GiveChange { slot: s, response: r, outcome, mint_url, unit } = settled {
        lemma_results_are_published_with_change(
            pool,
            s,
            r,
            outcome,
            mint_url,
            unit,
            Ok(token),
            published,
        );
    }
}

} // verus!
