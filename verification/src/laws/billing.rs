//! Laws on money: prices, what a payment buys, what a job costs, and what is handed back.

use vstd::prelude::*;

use crate::clock;
use crate::config::WorkerPrice;
use crate::dispatch;
use crate::dispatch::JobStage;
use crate::jobs::WorkerJobResponse;
use crate::listener::PoolController;
use crate::number;
use crate::payments;
use crate::payments::{
    BalanceView, BillingOutcome, ClaimedPayment, PaymentAuthorization, PaymentClient, PaymentError,
    WalletCommand,
};

verus! {

/// Whether the price at `i` is the first one for a mint and a unit.
pub open spec fn is_first_price(
    prices: Seq<WorkerPrice>,
    i: int,
    mint_url: Seq<char>,
    unit: Seq<char>,
) -> bool {
    &&& 0 <= i < prices.len()
    &&& prices[i].mint_url@ == mint_url && prices[i].unit@ == unit
    &&& forall|j: int|
        0 <= j < i ==> (#[trigger] prices[j]).mint_url@ != mint_url || prices[j].unit@ != unit
}

/// The price for a mint and a unit is the first one that is configured for both, and there is none
/// exactly where none is configured for both.
pub proof fn lemma_first_price_counts(
    prices: Seq<WorkerPrice>,
    mint_url: Seq<char>,
    unit: Seq<char>,
)
    ensures
        forall|i: int| #[trigger]
            is_first_price(prices, i, mint_url, unit) ==> payments::price_for(
                prices,
                mint_url,
                unit,
            ) == Some(prices[i]),
        payments::price_for(prices, mint_url, unit) is Some ==> exists|i: int| #[trigger]
            is_first_price(prices, i, mint_url, unit),
        payments::price_for(prices, mint_url, unit) is None ==> forall|i: int|
            0 <= i < prices.len() ==> (#[trigger] prices[i]).mint_url@ != mint_url
                || prices[i].unit@ != unit,
    decreases prices.len(),
{
    if prices.len() > 0 {
        let t = prices.drop_first();
        lemma_first_price_counts(t, mint_url, unit);
        if prices[0].mint_url@ == mint_url && prices[0].unit@ == unit {
            assert(is_first_price(prices, 0, mint_url, unit));
            assert forall|i: int| #[trigger] is_first_price(prices, i, mint_url, unit) implies i
                == 0 by {}
        } else {
            assert forall|i: int| #[trigger] is_first_price(prices, i, mint_url, unit) implies
                is_first_price(t, i - 1, mint_url, unit) by {
                assert(i > 0);
                assert forall|j: int| 0 <= j < i - 1 implies (#[trigger] t[j]).mint_url@ != mint_url
                    || t[j].unit@ != unit by {
                    assert(t[j] == prices[j + 1]);
                }
            }
            if payments::price_for(t, mint_url, unit) is Some {
                let i = choose|i: int| #[trigger] is_first_price(t, i, mint_url, unit);
                assert forall|j: int| 0 <= j < i + 1 implies (#[trigger] prices[j]).mint_url@
                    != mint_url || prices[j].unit@ != unit by {
                    if j > 0 {
                        assert(t[j - 1] == prices[j]);
                    }
                }
                assert(prices[i + 1] == t[i]);
                assert(is_first_price(prices, i + 1, mint_url, unit));
            } else {
                assert forall|i: int| 0 <= i < prices.len() implies (
                #[trigger] prices[i]).mint_url@ != mint_url || prices[i].unit@ != unit by {
                    if i > 0 {
                        assert(t[i - 1] == prices[i]);
                    }
                }
            }
        }
    }
}

/// What a payment buys. It is priced by the first price that is configured for its mint and unit, which
/// is a positive number; it covers the minimum duration; and it buys as many whole seconds as it pays
/// for, no fewer and no more. The job may run that long or for the maximum duration, whichever is less.
pub proof fn lemma_what_a_payment_buys(
    a: PaymentAuthorization,
    prices: Seq<WorkerPrice>,
    min_duration: nat,
    max_duration: nat,
)
    requires
        payments::is_authorization(a, prices, min_duration, max_duration),
    ensures
        a.price_per_second > 0,
        exists|i: int| #[trigger]
            is_first_price(prices, i, a.payment.mint_url@, a.payment.unit@)
                && number::parse_up_to(prices[i].price_per_second@, u64::MAX as nat) == Some(
                a.price_per_second as nat,
            ),
        min_duration * a.price_per_second <= a.payment.amount,
        a.prepaid_seconds * a.price_per_second <= a.payment.amount,
        a.payment.amount < (a.prepaid_seconds + 1) * a.price_per_second,
        clock::secs_of_duration(a.timeout) <= max_duration,
        clock::secs_of_duration(a.timeout) <= a.prepaid_seconds,
        clock::secs_of_duration(a.timeout) == max_duration || clock::secs_of_duration(a.timeout)
            == a.prepaid_seconds,
{
    let amount = a.payment.amount as int;
    let price = a.price_per_second as int;
    let paid = a.prepaid_seconds as int;
    lemma_first_price_counts(prices, a.payment.mint_url@, a.payment.unit@);
    let i = choose|i: int| #[trigger]
        is_first_price(prices, i, a.payment.mint_url@, a.payment.unit@);
    assert(is_first_price(prices, i, a.payment.mint_url@, a.payment.unit@));
    assert(paid * price <= amount && amount < (paid + 1) * price) by (nonlinear_arith)
        requires
            price > 0,
            amount >= 0,
            paid == amount / price,
    ;
}

/// Why a payment does not buy a job: there is no price for its mint and unit, the price is not a
/// positive number, or the payment is smaller than the price of the minimum duration. No other payment
/// is refused.
pub proof fn lemma_why_payments_are_refused(
    prices: Seq<WorkerPrice>,
    payment: ClaimedPayment,
    min_duration: nat,
    e: PaymentError,
)
    requires
        dispatch::is_refusal_reason(
            payments::price_for(prices, payment.mint_url@, payment.unit@),
            payment,
            min_duration,
            e,
        ),
    ensures
        e is NoPrice ==> forall|i: int|
            0 <= i < prices.len() ==> (#[trigger] prices[i]).mint_url@ != payment.mint_url@
                || prices[i].unit@ != payment.unit@,
        !(e is NoPrice) ==> exists|i: int| #[trigger]
            is_first_price(prices, i, payment.mint_url@, payment.unit@),
        forall|i: int| #[trigger]
            is_first_price(prices, i, payment.mint_url@, payment.unit@) ==> (number::parse_up_to(
                prices[i].price_per_second@,
                u64::MAX as nat,
            ) matches Some(price) ==> price == 0 || payment.amount < min_duration * price),
        e matches PaymentError::BelowMinimum { received, required, unit } ==> received
            == payment.amount && received < required && unit@ == payment.unit@,
        e is NoPrice || e is InvalidPrice || e is MinimumOverflow || e is BelowMinimum,
{
    lemma_first_price_counts(prices, payment.mint_url@, payment.unit@);
    assert forall|i: int| #[trigger]
        is_first_price(prices, i, payment.mint_url@, payment.unit@) implies (number::parse_up_to(
        prices[i].price_per_second@,
        u64::MAX as nat,
    ) matches Some(price) ==> price == 0 || payment.amount < min_duration * price) by {
        assert(payments::price_for(prices, payment.mint_url@, payment.unit@) == Some(prices[i]));
    }
}

/// What a job is billed for: the time that it took or the minimum duration, whichever is longer. Its
/// cost is the price of that time, unless that is more than was paid, and then all that was paid. The
/// rest is the change.
pub proof fn lemma_what_a_job_costs(
    outcome: BillingOutcome,
    authorization: PaymentAuthorization,
    elapsed: nat,
    min_duration: nat,
)
    requires
        dispatch::is_bill(outcome, authorization, elapsed, min_duration),
    ensures
        ({
            let price = authorization.price_per_second;
            let amount = authorization.payment.amount;
            &&& outcome.duration == elapsed
            &&& outcome.billable_duration >= elapsed
            &&& outcome.billable_duration >= min_duration
            &&& outcome.billable_duration == elapsed || outcome.billable_duration == min_duration
            &&& outcome.billable_duration * price <= amount ==> outcome.cost
                == outcome.billable_duration * price
            &&& outcome.billable_duration * price > amount ==> outcome.cost == amount
            &&& outcome.cost + outcome.change_amount == amount
        }),
{
}

/// How a bill is settled: change is given where the payment is more than the price of the billable
/// time, and it is the difference; otherwise the result is published, with a bill over all that was
/// paid and without change. The mint and the unit are those of the payment, and the response stays as it
/// was.
pub proof fn lemma_how_bills_are_settled(
    pool: PoolController,
    slot: usize,
    response: WorkerJobResponse,
    authorization: PaymentAuthorization,
    next: JobStage,
    billable: nat,
)
    requires
        pool.settles(slot, response, authorization, next),
        billable >= response.elapsed_seconds,
        billable >= pool.config.worker_min_duration,
        billable == response.elapsed_seconds || billable == pool.config.worker_min_duration,
    ensures
        ({
            let price = authorization.price_per_second;
            let amount = authorization.payment.amount;
            let charge = billable * price;
            &&& charge < amount ==> match next {
                JobStage::GiveChange { slot: s, response: r, outcome, mint_url, unit } => {
                    &&& s == slot
                    &&& r == response
                    &&& outcome.duration == response.elapsed_seconds
                    &&& outcome.billable_duration == billable
                    &&& outcome.cost == charge
                    &&& outcome.change_amount == amount - charge
                    &&& mint_url@ == authorization.payment.mint_url@
                    &&& unit@ == authorization.payment.unit@
                },
                _ => false,
            }
            &&& charge >= amount ==> match next {
                JobStage::Publish { slot: s, response: r } => {
                    &&& s == slot
                    &&& r.status == response.status
                    &&& r.exit_code == response.exit_code
                    &&& r.elapsed_seconds == response.elapsed_seconds
                    &&& r.log_tail == response.log_tail
                    &&& r.result_errors == response.result_errors
                    &&& r.billing matches Some(b)
                    &&& b.duration == response.elapsed_seconds
                    &&& b.billable_duration == billable
                    &&& b.cost == amount
                    &&& b.mint@ == authorization.payment.mint_url@
                    &&& b.unit@ == authorization.payment.unit@
                    &&& b.change is None
                },
                _ => false,
            }
        }),
{
    assert(billable == payments::billable_seconds(
        response.elapsed_seconds as nat,
        pool.config.worker_min_duration as nat,
    ));
    if let JobStage::Publish { response: r, .. } = next {
        if let Some(b) = r.billing {
            if exists|outcome: BillingOutcome|
                dispatch::is_bill(
                    outcome,
                    authorization,
                    response.elapsed_seconds as nat,
                    pool.config.worker_min_duration as nat,
                ) && #[trigger] dispatch::is_billing(
                    b,
                    outcome,
                    authorization.payment.mint_url@,
                    authorization.payment.unit@,
                    None,
                ) {
                let outcome = choose|outcome: BillingOutcome|
                    dispatch::is_bill(
                        outcome,
                        authorization,
                        response.elapsed_seconds as nat,
                        pool.config.worker_min_duration as nat,
                    ) && #[trigger] dispatch::is_billing(
                        b,
                        outcome,
                        authorization.payment.mint_url@,
                        authorization.payment.unit@,
                        None,
                    );
                assert(crate::text::optional(b.change) is None);
                assert(b.change is None);
            }
        }
    }
}

/// The balance for a mint and a unit: two lists of entries have it together, an entry counts with its
/// amount where it is for both, and does not count otherwise.
pub proof fn lemma_balances_add_up(
    a: Seq<BalanceView>,
    b: Seq<BalanceView>,
    mint_url: Seq<char>,
    unit: Seq<char>,
)
    ensures
        payments::balance_total(a + b, mint_url, unit) == payments::balance_total(a, mint_url, unit)
            + payments::balance_total(b, mint_url, unit),
        a.len() == 1 && a[0].mint_url == mint_url && a[0].unit == unit ==> payments::balance_total(
            a,
            mint_url,
            unit,
        ) == a[0].amount,
        a.len() == 1 && (a[0].mint_url != mint_url || a[0].unit != unit)
            ==> payments::balance_total(a, mint_url, unit) == 0,
        a.len() == 0 ==> payments::balance_total(a, mint_url, unit) == 0,
    decreases b.len(),
{
    if a.len() == 1 {
        assert(payments::balance_total(a.drop_last(), mint_url, unit) == 0);
        assert(a.last() == a[0]);
    }
    if b.len() > 0 {
        lemma_balances_add_up(a, b.drop_last(), mint_url, unit);
        assert((a + b).drop_last() =~= a + b.drop_last());
        assert((a + b).last() == b.last());
    } else {
        assert(a + b =~= a);
    }
}

/// What the wallet is told. Every command names the work directory, the engine and its unit, and then
/// its own arguments. A token is received with the permission to trust its mint, and with the key that
/// unlocks it where there is one. Change is sent from the mint, over the whole amount.
pub proof fn lemma_wallet_arguments(
    client: PaymentClient,
    command: WalletCommand,
    token: Seq<char>,
    key: Seq<char>,
    mint_url: Seq<char>,
    amount: nat,
)
    ensures
        ({
            let all = client.program_args(command);
            &&& all.len() == 6 + command.args@.len()
            &&& all[0] == "--work-dir"@ && all[1] == client.work_dir@
            &&& all[2] == "--engine"@ && all[3] == client.engine@
            &&& all[4] == "--unit"@ && all[5] == command.unit@
            &&& forall|i: int|
                0 <= i < command.args@.len() ==> #[trigger] command.args@[i]@ == all[6 + i]
        }),
        ({
            let plain = payments::receive_args(token, None);
            let locked = payments::receive_args(token, Some(key));
            &&& plain.len() == 3 && locked.len() == 5
            &&& plain[0] == "receive"@ && plain[1] == token && plain[2] == "--allow-untrusted"@
            &&& locked.take(3) == plain
            &&& locked[3] == "--signing-key"@ && locked[4] == key
        }),
        ({
            let send = payments::send_args(mint_url, amount);
            &&& send.len() == 5 && send[0] == "send"@
            &&& send[1] == "--mint-url"@ && send[2] == mint_url
            &&& send[3] == "--amount"@
            &&& amount <= u64::MAX ==> number::parse_up_to(send[4], u64::MAX as nat) == Some(amount)
        }),
{
    let all = client.program_args(command);
    assert(command.args.deep_view().len() == command.args@.len());
    assert forall|i: int| 0 <= i < command.args@.len() implies #[trigger] command.args@[i]@ == all[6
        + i] by {
        assert(command.args.deep_view()[i] == command.args@[i]@);
    }
    assert(payments::receive_args(token, Some(key)).take(3) =~= payments::receive_args(token, None));
    number::lemma_decimal_reads_back(amount);
}

} // verus!
