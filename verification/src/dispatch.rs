//! A job request from its arrival to its answer: it is decoded, its payment is claimed and
//! authorised, the job is run, the bill is settled, change is given, and the result is published.
//!
//! Each stage says what has to be done next, and a function for each kind of reply leads to the next
//! stage.

use vstd::prelude::*;

use crate::clock;
use crate::config::WorkerPrice;
use crate::event;
use crate::event::Event;
use crate::jobs;
use crate::jobs::{
    extract_payment_token, open_job_event, read_job_event, JobBilling, JobError, JobStatus,
    WorkerJobRequest, WorkerJobResponse, JOB_REQUEST_KIND,
};
use crate::json;
use crate::listener;
use crate::listener::PoolController;
use crate::number;
use crate::number::decimal_text;
use crate::payments;
use crate::payments::{
    authorize_payment, settle_billing, BillingOutcome, ClaimedPayment, PaymentAuthorization,
    PaymentError,
};
use crate::text;

verus! {

/// How far a job request has come.
#[derive(Debug)]
pub enum JobStage {
    /// The job has to be read from this JSON.
    Read { slot: usize, plaintext: String },
    /// The payment has to be claimed, with the worker's key for tokens that are locked to it.
    Claim { slot: usize, job: WorkerJobRequest, token: String, signing_key: String },
    /// The job has to be run, for no longer than the payment allows.
    Run { slot: usize, job: WorkerJobRequest, authorization: PaymentAuthorization },
    /// The container of the slot has to be made again, since the job still runs in it.
    Respawn { slot: usize, response: WorkerJobResponse, authorization: PaymentAuthorization },
    /// Change has to be given.
    GiveChange {
        slot: usize,
        response: WorkerJobResponse,
        outcome: BillingOutcome,
        mint_url: String,
        unit: String,
    },
    /// The result has to be published.
    Publish { slot: usize, response: WorkerJobResponse },
    /// The event has been handled, without an error.
    Finished,
}

/// What became of a job that was run.
#[derive(Debug)]
pub enum RunOutcome {
    /// The worker answered.
    Answered(WorkerJobResponse),
    /// The time that was paid for was over.
    TimedOut,
    /// The worker could not be reached, or its answer could not be read.
    Failed(String),
}

/// Whether a request is refused with this reason: the answer says so, and nothing is billed.
pub open spec fn refuses(next: JobStage, slot: usize, reason: Seq<char>) -> bool {
    &&& next matches JobStage::Publish { slot: s, response }
    &&& s == slot
    &&& response.is_bare(JobStatus::Invalid, 0, reason)
}

/// What the answer to a job says that took too long.
pub open spec fn timeout_text(seconds: nat) -> Seq<char> {
    "job timed out after "@ + number::decimal(seconds) + " seconds"@
}

/// The outcome of the bill for a job.
pub open spec fn is_bill(
    outcome: BillingOutcome,
    authorization: PaymentAuthorization,
    elapsed: nat,
    min_duration: nat,
) -> bool {
    let amount = authorization.payment.amount as nat;
    let price = authorization.price_per_second as nat;
    &&& outcome.duration == elapsed
    &&& outcome.billable_duration == payments::billable_seconds(elapsed, min_duration)
    &&& outcome.cost == payments::job_cost(amount, price, elapsed, min_duration)
    &&& outcome.change_amount == amount - outcome.cost
}

/// Whether two responses are the same but for the bill and the errors.
pub open spec fn same_result(a: WorkerJobResponse, b: WorkerJobResponse) -> bool {
    &&& a.status == b.status
    &&& a.exit_code == b.exit_code
    &&& a.elapsed_seconds == b.elapsed_seconds
    &&& a.log_tail == b.log_tail
}

/// Whether `billing` is the bill for an outcome, with this change.
pub open spec fn is_billing(
    billing: JobBilling,
    outcome: BillingOutcome,
    mint: Seq<char>,
    unit: Seq<char>,
    change: Option<Seq<char>>,
) -> bool {
    &&& billing.duration == outcome.duration
    &&& billing.billable_duration == outcome.billable_duration
    &&& billing.cost == outcome.cost
    &&& billing.mint@ == mint
    &&& billing.unit@ == unit
    &&& text::optional(billing.change) == change
}

impl PoolController {
    /// Whether the bill for a response is settled: change is given where some is due, and otherwise
    /// the result is published with the bill.
    pub open spec fn settles(
        self,
        slot: usize,
        response: WorkerJobResponse,
        authorization: PaymentAuthorization,
        next: JobStage,
    ) -> bool {
        let elapsed = response.elapsed_seconds as nat;
        let minimum = self.config.worker_min_duration as nat;
        let amount = authorization.payment.amount as nat;
        let price = authorization.price_per_second as nat;
        if payments::job_cost(amount, price, elapsed, minimum) < amount {
            &&& next matches JobStage::GiveChange { slot: s, response: r, outcome, mint_url, unit }
            &&& s == slot
            &&& r == response
            &&& is_bill(outcome, authorization, elapsed, minimum)
            &&& mint_url@ == authorization.payment.mint_url@
            &&& unit@ == authorization.payment.unit@
        } else {
            &&& next matches JobStage::Publish { slot: s, response: r }
            &&& s == slot
            &&& same_result(r, response)
            &&& r.result_errors == response.result_errors
            &&& r.billing matches Some(b)
            &&& exists|outcome: BillingOutcome|
                is_bill(outcome, authorization, elapsed, minimum) && #[trigger] is_billing(
                    b,
                    outcome,
                    authorization.payment.mint_url@,
                    authorization.payment.unit@,
                    None,
                )
        }
    }

    /// Whether the bill for a job is settled that could not be run, for this reason.
    pub open spec fn settles_failure(
        self,
        slot: usize,
        reason: Seq<char>,
        authorization: PaymentAuthorization,
        next: JobStage,
    ) -> bool {
        exists|response: WorkerJobResponse|
            response.is_bare(JobStatus::Failure, 0, reason) && #[trigger] self.settles(
                slot,
                response,
                authorization,
                next,
            )
    }

    /// Takes an event in. An event that is not a job request, or is for none of the workers, is
    /// passed over. A request that cannot be opened is refused.
    pub fn handle_job_event(&self, event: &Event) -> (r: JobStage)
        requires
            self.wf(),
        ensures
            ({
                let slot = listener::addressed_slot(self.workers@, event.tags.deep_view());
                if event.kind != JOB_REQUEST_KIND || slot is None {
                    r is Finished
                } else {
                    let worker = self.workers@[slot->0 as int];
                    let opened = jobs::decrypted(
                        worker.keys.secret_key@,
                        event.pubkey@,
                        event.content@,
                    );
                    match opened {
                        Some(s) => r matches JobStage::Read { slot: n, plaintext } && n == slot->0
                            && plaintext@ == s,
                        None => refuses(r, slot->0, jobs::job_error_text(JobError::Decrypt)),
                    }
                }
            }),
            r matches JobStage::Read { slot, .. } ==> slot < self.workers@.len(),
    {
        if event.kind != JOB_REQUEST_KIND {
            return JobStage::Finished;
        }
        let slot: usize = match self.slot_for_event(event) {
            Some(slot) => slot,
            None => {
                return JobStage::Finished;
            },
        };
        proof {
            listener::lemma_addressed_slot(self.workers@, event.tags.deep_view());
            let i = choose|i: int|
                0 <= i < self.workers@.len() && (#[trigger] self.workers@[i]).slot == slot
                    && event::is_addressed_to(
                    event.tags.deep_view(),
                    self.workers@[i].pubkey@,
                );
            assert(i == slot);
        }
        match open_job_event(&self.workers[slot], event) {
            Ok(plaintext) => JobStage::Read { slot, plaintext },
            Err(e) => JobStage::Publish {
                slot,
                response: WorkerJobResponse::invalid(e.message()),
            },
        }
    }

    /// Goes on when the job has been read from the JSON: `None` where the JSON holds no job. A job
    /// that is not acceptable is refused, and so is one without exactly one payment.
    pub fn job_read(&self, event: &Event, slot: usize, decoded: Option<WorkerJobRequest>) -> (r:
        JobStage)
        requires
            slot < self.workers@.len(),
        ensures
            ({
                let values = jobs::payment_values(event.tags.deep_view());
                match decoded {
                    None => refuses(r, slot, jobs::job_error_text(JobError::NotJson)),
                    Some(d) => match jobs::job_problem(d) {
                        Some(e) => refuses(r, slot, jobs::job_error_text(e)),
                        None => if values.len() != 1 {
                            refuses(r, slot, jobs::job_error_text(JobError::PaymentTags))
                        } else if jobs::is_blank(values[0]) {
                            refuses(r, slot, jobs::job_error_text(JobError::EmptyPayment))
                        } else {
                            &&& r matches JobStage::Claim { slot: n, job, token, signing_key }
                            &&& n == slot
                            &&& jobs::same_job(job, d)
                            &&& job.request_event_id@ == event.id@
                            &&& token@ == text::trim_spec(values[0])
                            &&& signing_key@ == self.workers@[slot as int].keys.secret_key@
                        },
                    },
                }
            }),
            self.wf() ==> (r matches JobStage::Claim { signing_key, .. } ==> event::is_raw_hex(
                signing_key@,
            )),
    {
        let job = match read_job_event(event, decoded) {
            Ok(job) => job,
            Err(e) => {
                return JobStage::Publish {
                    slot,
                    response: WorkerJobResponse::invalid(e.message()),
                };
            },
        };
        match extract_payment_token(event) {
            Ok(token) => JobStage::Claim {
                slot,
                job,
                token,
                signing_key: self.workers[slot].keys.secret_key.clone(),
            },
            Err(e) => JobStage::Publish {
                slot,
                response: WorkerJobResponse::invalid(e.message()),
            },
        }
    }

    /// Goes on when the payment has been claimed, or could not be. A payment that does not buy the
    /// job is refused.
    pub fn payment_claimed(
        &self,
        slot: usize,
        job: WorkerJobRequest,
        claimed: Result<ClaimedPayment, PaymentError>,
    ) -> (r: JobStage)
        ensures
            match claimed {
                Err(e) => refuses(r, slot, payments::payment_error_text(e)),
                Ok(payment) => {
                    let price = payments::price_for(
                        self.config.worker_prices@,
                        payment.mint_url@,
                        payment.unit@,
                    );
                    let minimum = self.config.worker_min_duration;
                    match r {
                        JobStage::Run { slot: n, job: j, authorization: a } => {
                            &&& n == slot && j == job
                            &&& a.payment == payment
                            &&& payments::is_authorization(
                                a,
                                self.config.worker_prices@,
                                minimum as nat,
                                self.config.worker_max_duration as nat,
                            )
                        },
                        JobStage::Publish { .. } => refuses_payment(
                            r,
                            slot,
                            price,
                            payment,
                            minimum as nat,
                        ),
                        _ => false,
                    }
                },
            },
    {
        match claimed {
            Ok(payment) => {
                match authorize_payment(
                    payment,
                    self.config.worker_prices.as_slice(),
                    self.config.worker_min_duration,
                    self.config.worker_max_duration,
                ) {
                    Ok(authorization) => JobStage::Run { slot, job, authorization },
                    Err(e) => {
                        let ghost price = payments::price_for(
                            self.config.worker_prices@,
                            payment.mint_url@,
                            payment.unit@,
                        );
                        assert(is_refusal_reason(
                            price,
                            payment,
                            self.config.worker_min_duration as nat,
                            e,
                        ));
                        JobStage::Publish { slot, response: WorkerJobResponse::invalid(e.message()) }
                    },
                }
            },
            Err(e) => JobStage::Publish {
                slot,
                response: WorkerJobResponse::invalid(e.message()),
            },
        }
    }

    /// Goes on when the job has been run. A job that took longer than was paid for has taken the time
    /// that was paid for, and its container is made again. Otherwise the bill is settled.
    pub fn job_run(&self, slot: usize, authorization: PaymentAuthorization, outcome: RunOutcome) -> (r:
        JobStage)
        ensures
            match outcome {
                RunOutcome::Answered(response) => self.settles(slot, response, authorization, r),
                RunOutcome::Failed(message) => self.settles_failure(
                    slot,
                    message@,
                    authorization,
                    r,
                ),
                RunOutcome::TimedOut => {
                    let seconds = clock::secs_of_duration(authorization.timeout);
                    &&& r matches JobStage::Respawn { slot: n, response, authorization: a }
                    &&& n == slot
                    &&& a == authorization
                    &&& response.is_bare(JobStatus::Timeout, seconds, timeout_text(seconds as nat))
                },
            },
    {
        match outcome {
            RunOutcome::Answered(response) => self.settle(slot, response, authorization),
            RunOutcome::Failed(message) => {
                let response = WorkerJobResponse::failure(message);
                self.settle(slot, response, authorization)
            },
            RunOutcome::TimedOut => {
                let seconds: u64 = authorization.timeout.as_secs();
                let mut message: String = "job timed out after ".to_string();
                message.append(decimal_text(seconds).as_str());
                message.append(" seconds");
                let response = WorkerJobResponse::timeout(message, seconds);
                JobStage::Respawn { slot, response, authorization }
            },
        }
    }

    /// Goes on when the container of a job that took too long has been made again, or could not be. The
    /// bill is settled in either case.
    pub fn slot_respawned(
        &self,
        slot: usize,
        response: WorkerJobResponse,
        authorization: PaymentAuthorization,
        _respawned: Result<(), String>,
    ) -> (r: JobStage)
        ensures
            self.settles(slot, response, authorization, r),
    {
        self.settle(slot, response, authorization)
    }

    /// Settles the bill for a response.
    fn settle(
        &self,
        slot: usize,
        response: WorkerJobResponse,
        authorization: PaymentAuthorization,
    ) -> (r: JobStage)
        ensures
            self.settles(slot, response, authorization, r),
    {
        let outcome = settle_billing(
            &authorization,
            response.elapsed_seconds,
            self.config.worker_min_duration,
        );
        let payment = authorization.payment;
        if outcome.change_amount > 0 {
            JobStage::GiveChange {
                slot,
                response,
                outcome,
                mint_url: payment.mint_url,
                unit: payment.unit,
            }
        } else {
            let ghost elapsed = response.elapsed_seconds as nat;
            let mut billed = response;
            let billing = JobBilling::from_outcome(outcome, payment.mint_url, payment.unit, None);
            assert(is_bill(
                outcome,
                authorization,
                elapsed,
                self.config.worker_min_duration as nat,
            ));
            assert(is_billing(
                billing,
                outcome,
                authorization.payment.mint_url@,
                authorization.payment.unit@,
                None,
            ));
            billed.with_billing(billing);
            JobStage::Publish { slot, response: billed }
        }
    }

    /// Goes on when change has been given, or could not be. The result is published in either case;
    /// where there is no change, it mentions the error.
    pub fn change_given(
        &self,
        slot: usize,
        response: WorkerJobResponse,
        outcome: BillingOutcome,
        mint_url: String,
        unit: String,
        change: Result<String, PaymentError>,
    ) -> (r: JobStage)
        ensures
            ({
                &&& r matches JobStage::Publish { slot: n, response: billed }
                &&& n == slot
                &&& same_result(billed, response)
                &&& billed.billing matches Some(b)
                &&& match change {
                    Ok(token) => {
                        &&& is_billing(b, outcome, mint_url@, unit@, Some(token@))
                        &&& billed.result_errors@ == response.result_errors@
                    },
                    Err(e) => {
                        &&& is_billing(b, outcome, mint_url@, unit@, None)
                        &&& billed.result_errors@.len() == response.result_errors@.len() + 1
                        &&& billed.result_errors@.drop_last() == response.result_errors@
                        &&& billed.result_errors@.last()@ == payments::payment_error_text(e)
                    },
                }
            }),
    {
        let mut billed = response;
        match change {
            Ok(token) => {
                billed.with_billing(JobBilling::from_outcome(outcome, mint_url, unit, Some(token)));
            },
            Err(e) => {
                billed.with_billing(JobBilling::from_outcome(outcome, mint_url, unit, None));
                billed.add_result_error(e.message());
                assert(billed.result_errors@.drop_last() =~= response.result_errors@);
            },
        }
        JobStage::Publish { slot, response: billed }
    }
}

impl PoolController {
    /// Goes on when the result has been published, or could not be. The event has been handled in
    /// either case: a result that cannot be published is no error of the handling.
    pub fn result_published(&self, _published: Result<(), String>) -> (r: JobStage)
        ensures
            r is Finished,
    {
        JobStage::Finished
    }
}

/// Whether a payment does not buy a job for this reason.
pub open spec fn is_refusal_reason(
    price: Option<WorkerPrice>,
    payment: ClaimedPayment,
    min_duration: nat,
    e: PaymentError,
) -> bool {
    match e {
        PaymentError::NoPrice { mint_url, unit } => price is None && mint_url@ == payment.mint_url@
            && unit@ == payment.unit@,
        PaymentError::InvalidPrice => price matches Some(p) && payments::price_value(p) is None,
        PaymentError::MinimumOverflow => price matches Some(p) && payments::price_value(
            p,
        ) matches Some(n) && min_duration * n > u64::MAX,
        PaymentError::BelowMinimum { received, required, unit } => price matches Some(p)
            && payments::price_value(p) matches Some(n) && required == min_duration * n && received
            == payment.amount && received < required && unit@ == payment.unit@,
        _ => false,
    }
}

/// Whether a payment is refused because it does not buy a job, with the reason.
pub open spec fn refuses_payment(
    next: JobStage,
    slot: usize,
    price: Option<WorkerPrice>,
    payment: ClaimedPayment,
    min_duration: nat,
) -> bool {
    exists|e: PaymentError| #[trigger]
        is_refusal_reason(price, payment, min_duration, e) && refuses(
            next,
            slot,
            payments::payment_error_text(e),
        )
}

// ---------------------------------------------------------------------------------------------
// Laws
// ---------------------------------------------------------------------------------------------

/// What is paid is charged or handed back. A job that keeps to the time it was given is charged for
/// exactly its billable seconds, and so is one that is stopped when that time is over.
pub proof fn lemma_payments_are_accounted_for(
    authorization: PaymentAuthorization,
    prices: Seq<WorkerPrice>,
    min_duration: nat,
    max_duration: nat,
    elapsed: nat,
    outcome: BillingOutcome,
)
    requires
        payments::is_authorization(authorization, prices, min_duration, max_duration),
        is_bill(outcome, authorization, elapsed, min_duration),
    ensures
        outcome.cost + outcome.change_amount == authorization.payment.amount,
        elapsed <= clock::secs_of_duration(authorization.timeout) ==> outcome.cost
            == payments::billable_seconds(elapsed, min_duration) * authorization.price_per_second,
{
    let amount = authorization.payment.amount as nat;
    let price = authorization.price_per_second as nat;
    payments::lemma_cost_is_bounded(amount, price, elapsed, min_duration);
    if elapsed <= clock::secs_of_duration(authorization.timeout) {
        payments::lemma_timely_job_is_charged_exactly(
            amount,
            price,
            elapsed,
            min_duration,
            max_duration,
        );
    }
}

/// Change is given exactly where the job costs less than was paid for it. Where it does not, the
/// result is published with a bill that has no change.
pub proof fn lemma_change_is_given_where_due(
    pool: PoolController,
    slot: usize,
    response: WorkerJobResponse,
    authorization: PaymentAuthorization,
    next: JobStage,
)
    requires
        pool.settles(slot, response, authorization, next),
    ensures
        next is GiveChange <==> payments::job_cost(
            authorization.payment.amount as nat,
            authorization.price_per_second as nat,
            response.elapsed_seconds as nat,
            pool.config.worker_min_duration as nat,
        ) < authorization.payment.amount,
        next matches JobStage::GiveChange { outcome, .. } ==> outcome.change_amount > 0,
        next matches JobStage::Publish { response: r, .. } ==> (r.billing matches Some(b)
            && b.change is None),
{
    if let JobStage::Publish { response: r, .. } = next {
        let b = r.billing->0;
        let outcome = choose|outcome: BillingOutcome|
            is_bill(
                outcome,
                authorization,
                response.elapsed_seconds as nat,
                pool.config.worker_min_duration as nat,
            ) && #[trigger] is_billing(
                b,
                outcome,
                authorization.payment.mint_url@,
                authorization.payment.unit@,
                None,
            );
        assert(text::optional(b.change) is None);
    }
}

/// A refused request is answered: the answer refers to the request, says that the job is not valid,
/// and bills nothing. It goes to whoever sent the request, unless that is the worker itself.
pub proof fn lemma_refusals_are_answered(
    next: JobStage,
    slot: usize,
    reason: Seq<char>,
    request: Event,
    secret_key: Seq<char>,
    answer: Event,
)
    requires
        refuses(next, slot, reason),
        next matches JobStage::Publish { response, .. } && event::is_signed_event(
            answer,
            secret_key,
            jobs::JOB_RESULT_KIND,
            json::object_text(jobs::response_members(response)),
            jobs::result_tags(request.id@, request.pubkey@, response),
        ),
    ensures
        answer.kind == jobs::JOB_RESULT_KIND,
        forall|tag: Seq<Seq<char>>| #[trigger]
            answer.tags.deep_view().contains(tag) ==> tag == seq!["e"@, request.id@] || tag == seq![
                "p"@,
                request.pubkey@,
            ] || tag == seq!["status"@, "invalid"@],
        answer.tags.deep_view().contains(seq!["e"@, request.id@]),
        answer.tags.deep_view().contains(seq!["status"@, "invalid"@]),
        request.pubkey@ != answer.pubkey@ ==> event::is_addressed_to(
            answer.tags.deep_view(),
            request.pubkey@,
        ),
{
    if let JobStage::Publish { response, .. } = next {
        jobs::lemma_result_answers_request(
            answer,
            secret_key,
            request.id@,
            request.pubkey@,
            response,
        );
        let tags = jobs::result_tags(request.id@, request.pubkey@, response);
        assert(tags =~= seq![
            seq!["e"@, request.id@],
            seq!["p"@, request.pubkey@],
            seq!["status"@, "invalid"@],
        ]);
        assert forall|tag: Seq<Seq<char>>| #[trigger]
            answer.tags.deep_view().contains(tag) implies tag == seq!["e"@, request.id@] || tag
            == seq!["p"@, request.pubkey@] || tag == seq!["status"@, "invalid"@] by {
            jobs::lemma_signed_tags(tags, answer.pubkey@, tag);
            let i = choose|i: int| 0 <= i < tags.len() && tags[i] == tag;
            assert(i == 0 || i == 1 || i == 2);
        }
    }
}

} // verus!
