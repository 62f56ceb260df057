//! Payment for jobs: prices, authorisation, billing, and the dialogue with the Cashu wallet.
//!
//! The wallet is an external program. This module says which commands it is given and what is made
//! of their output; running them is left to the caller.

use core::time::Duration;
use vstd::prelude::*;

use crate::clock;
use crate::config;
use crate::config::{Config, WorkerPrice};
use crate::number;
use crate::number::{decimal_text, parse_u64};
use crate::search;
use crate::text;
use crate::text::{copy_list, join, same_text};
use crate::wallet_output;
pub use crate::wallet_output::{
    parse_balance_entries, parse_cashu_token, parse_received_amount, parse_token_metadata,
    unique_units, BalanceEntry, BalanceView, TokenMetadata,
};

verus! {

/// A payment that the wallet has received.
#[derive(Debug, PartialEq, Eq)]
pub struct ClaimedPayment {
    pub mint_url: String,
    pub unit: String,
    pub amount: u64,
}

impl Clone for ClaimedPayment {
    fn clone(&self) -> (r: Self)
        ensures
            r == *self,
    {
        ClaimedPayment {
            mint_url: self.mint_url.clone(),
            unit: self.unit.clone(),
            amount: self.amount,
        }
    }
}

/// A payment that covers the minimum, and the time that it buys.
#[derive(Debug, PartialEq, Eq)]
pub struct PaymentAuthorization {
    pub payment: ClaimedPayment,
    pub price_per_second: u64,
    pub prepaid_seconds: u64,
    pub timeout: Duration,
}

/// What a job costs and what is handed back.
#[derive(Debug, Clone, Copy, PartialEq, Eq, Structural)]
pub struct BillingOutcome {
    pub duration: u64,
    pub billable_duration: u64,
    pub cost: u64,
    pub change_amount: u64,
}

/// Why a wallet command gave no output.
#[derive(Debug, PartialEq, Eq)]
pub enum CommandError {
    /// The program could not be started.
    NotStarted { program: String },
    /// The program's standard input could not be opened.
    NoStdin,
    /// The program's standard input could not be written.
    StdinNotWritten,
    /// The program could not be waited for.
    NotAwaited,
    /// The program ended without success.
    Failed { args: Vec<String>, stdout: String, stderr: String },
}

/// Why a token could not be decoded.
#[derive(Debug, PartialEq, Eq)]
pub enum DecodeError {
    /// No price is configured, so there is no unit to decode with.
    NoPrices,
    /// The wallet command failed.
    Command(CommandError),
    /// The wallet did not print one mint and one configured unit.
    NoMintAndUnit,
}

/// Why a payment is refused, or change cannot be given.
#[derive(Debug, PartialEq, Eq)]
pub enum PaymentError {
    /// No price is configured for the mint and unit of the payment.
    NoPrice { mint_url: String, unit: String },
    /// A configured price is not a positive integer.
    InvalidPrice,
    /// The minimum payment does not fit the number type.
    MinimumOverflow,
    /// The payment is smaller than the minimum.
    BelowMinimum { received: u64, required: u64, unit: String },
    /// The token could not be decoded.
    Decode(DecodeError),
    /// A wallet command failed.
    Command(CommandError),
    /// The balance became smaller.
    NoIncrease { mint_url: String, unit: String },
    /// The balances of the mint do not fit the number type.
    BalanceOverflow { mint_url: String, unit: String },
    /// Nothing was received.
    ZeroAmount,
    /// There is no change to give.
    NoChange,
    /// The wallet did not print a token.
    NoToken,
}

/// What a command error says.
pub open spec fn command_error_text(e: CommandError) -> Seq<char> {
    match e {
        CommandError::NotStarted { program } => "failed to execute "@ + program@,
        CommandError::NoStdin => "failed to open cdk-cli stdin"@,
        CommandError::StdinNotWritten => "failed to write cdk-cli stdin"@,
        CommandError::NotAwaited => "failed waiting for cdk-cli"@,
        CommandError::Failed { args, stdout, stderr } => "cdk-cli "@ + text::joined(
            args.deep_view(),
            " "@,
        ) + " failed: "@ + stderr@ + stdout@,
    }
}

/// What a payment error says.
pub open spec fn payment_error_text(e: PaymentError) -> Seq<char> {
    match e {
        PaymentError::NoPrice { mint_url, unit } => "no configured price for mint "@ + mint_url@
            + " and unit "@ + unit@,
        PaymentError::InvalidPrice =>
            "WORKER_PRICES price_per_second must be a positive integer"@,
        PaymentError::MinimumOverflow => "minimum payment overflowed"@,
        PaymentError::BelowMinimum { received, required, unit } =>
            "payment below minimum: received "@ + number::decimal(received as nat) + " "@ + unit@
            + ", required "@ + number::decimal(required as nat) + " "@ + unit@,
        PaymentError::Decode(_) => "failed to decode Cashu payment token"@,
        PaymentError::Command(c) => command_error_text(c),
        PaymentError::NoIncrease { mint_url, unit } => "balance for mint "@ + mint_url@ + " "@
            + unit@ + " did not increase"@,
        PaymentError::BalanceOverflow { mint_url, unit } => "balance for mint "@ + mint_url@ + " "@
            + unit@ + " is too large"@,
        PaymentError::ZeroAmount => "received payment amount was zero"@,
        PaymentError::NoChange => "change amount must be positive"@,
        PaymentError::NoToken => "cdk-cli send did not print a Cashu token"@,
    }
}

impl CommandError {
    /// The error in words.
    pub fn message(&self) -> (r: String)
        ensures
            r@ == command_error_text(*self),
    {
        match self {
            CommandError::NotStarted { program } => {
                let mut r: String = "failed to execute ".to_string();
                r.append(program.as_str());
                r
            },
            CommandError::NoStdin => "failed to open cdk-cli stdin".to_string(),
            CommandError::StdinNotWritten => "failed to write cdk-cli stdin".to_string(),
            CommandError::NotAwaited => "failed waiting for cdk-cli".to_string(),
            CommandError::Failed { args, stdout, stderr } => {
                let mut r: String = "cdk-cli ".to_string();
                r.append(join(args, " ").as_str());
                r.append(" failed: ");
                r.append(stderr.as_str());
                r.append(stdout.as_str());
                r
            },
        }
    }
}

impl DecodeError {
    /// The error in words.
    pub fn message(&self) -> (r: String)
        ensures
            r@ == match *self {
                DecodeError::NoPrices => "WORKER_PRICES must include at least one price"@,
                DecodeError::Command(c) => command_error_text(c),
                DecodeError::NoMintAndUnit =>
                    "cdk-cli decode-token output did not include one mint and unit"@,
            },
    {
        match self {
            DecodeError::NoPrices => "WORKER_PRICES must include at least one price".to_string(),
            DecodeError::Command(c) => c.message(),
            DecodeError::NoMintAndUnit =>
                "cdk-cli decode-token output did not include one mint and unit".to_string(),
        }
    }
}

impl PaymentError {
    /// The error in words.
    pub fn message(&self) -> (r: String)
        ensures
            r@ == payment_error_text(*self),
    {
        match self {
            PaymentError::NoPrice { mint_url, unit } => {
                let mut r: String = "no configured price for mint ".to_string();
                r.append(mint_url.as_str());
                r.append(" and unit ");
                r.append(unit.as_str());
                r
            },
            PaymentError::InvalidPrice =>
                "WORKER_PRICES price_per_second must be a positive integer".to_string(),
            PaymentError::MinimumOverflow => "minimum payment overflowed".to_string(),
            PaymentError::BelowMinimum { received, required, unit } => {
                let mut r: String = "payment below minimum: received ".to_string();
                r.append(decimal_text(*received).as_str());
                r.append(" ");
                r.append(unit.as_str());
                r.append(", required ");
                r.append(decimal_text(*required).as_str());
                r.append(" ");
                r.append(unit.as_str());
                r
            },
            PaymentError::Decode(_) => "failed to decode Cashu payment token".to_string(),
            PaymentError::Command(c) => c.message(),
            PaymentError::NoIncrease { mint_url, unit } => {
                let mut r: String = "balance for mint ".to_string();
                r.append(mint_url.as_str());
                r.append(" ");
                r.append(unit.as_str());
                r.append(" did not increase");
                r
            },
            PaymentError::BalanceOverflow { mint_url, unit } => {
                let mut r: String = "balance for mint ".to_string();
                r.append(mint_url.as_str());
                r.append(" ");
                r.append(unit.as_str());
                r.append(" is too large");
                r
            },
            PaymentError::ZeroAmount => "received payment amount was zero".to_string(),
            PaymentError::NoChange => "change amount must be positive".to_string(),
            PaymentError::NoToken => "cdk-cli send did not print a Cashu token".to_string(),
        }
    }
}

// ---------------------------------------------------------------------------------------------
// Prices
// ---------------------------------------------------------------------------------------------

/// Whether `p` is the price for `mint_url` and `unit`.
pub open spec fn price_matches(p: WorkerPrice, mint_url: Seq<char>, unit: Seq<char>) -> bool {
    p.mint_url@ == mint_url && p.unit@ == unit
}

/// The first configured price for `mint_url` and `unit`.
pub open spec fn price_for(
    prices: Seq<WorkerPrice>,
    mint_url: Seq<char>,
    unit: Seq<char>,
) -> Option<WorkerPrice>
    decreases prices.len(),
{
    if prices.len() == 0 {
        None
    } else if price_matches(prices[0], mint_url, unit) {
        Some(prices[0])
    } else {
        price_for(prices.drop_first(), mint_url, unit)
    }
}

/// The price per second that `p` writes down: a positive number of 64 bits.
pub open spec fn price_value(p: WorkerPrice) -> Option<nat> {
    match number::parse_up_to(p.price_per_second@, u64::MAX as nat) {
        Some(n) => if n > 0 {
            Some(n)
        } else {
            None
        },
        None => None,
    }
}

/// Finds the first configured price for a mint and unit.
pub fn find_price<'a>(prices: &'a [WorkerPrice], mint_url: &str, unit: &str) -> (r: Result<
    &'a WorkerPrice,
    PaymentError,
>)
    ensures
        r is Ok <==> price_for(prices@, mint_url@, unit@) is Some,
        r matches Ok(p) ==> price_for(prices@, mint_url@, unit@) == Some(*p),
        r matches Err(e) ==> (e matches PaymentError::NoPrice { mint_url: m, unit: u } && m@
            == mint_url@ && u@ == unit@),
{
    let mut i: usize = 0;
    assert(prices@.skip(0) =~= prices@);
    while i < prices.len()
        invariant
            i <= prices@.len(),
            price_for(prices@, mint_url@, unit@) == price_for(
                prices@.skip(i as int),
                mint_url@,
                unit@,
            ),
        decreases prices.len() - i,
    {
        let p = &prices[i];
        assert(prices@.skip(i as int).drop_first() =~= prices@.skip(i + 1));
        if same_text(p.mint_url.as_str(), mint_url) && same_text(p.unit.as_str(), unit) {
            return Ok(p);
        }
        i = i + 1;
    }
    Err(PaymentError::NoPrice { mint_url: mint_url.to_string(), unit: unit.to_string() })
}

/// Reads a price per second.
pub fn parse_price_per_second(price: &WorkerPrice) -> (r: Result<u64, PaymentError>)
    ensures
        r is Ok <==> price_value(*price) is Some,
        r matches Ok(n) ==> price_value(*price) == Some(n as nat),
        r matches Err(e) ==> e is InvalidPrice,
{
    match parse_u64(price.price_per_second.as_str()) {
        Some(n) => if n == 0 {
            Err(PaymentError::InvalidPrice)
        } else {
            Ok(n)
        },
        None => Err(PaymentError::InvalidPrice),
    }
}

/// A configured price is one of the list, and is for the mint and unit that were asked for.
pub proof fn lemma_price_for(prices: Seq<WorkerPrice>, mint_url: Seq<char>, unit: Seq<char>)
    ensures
        price_for(prices, mint_url, unit) is Some <==> exists|i: int|
            0 <= i < prices.len() && price_matches(#[trigger] prices[i], mint_url, unit),
        price_for(prices, mint_url, unit) matches Some(p) ==> prices.contains(p) && price_matches(
            p,
            mint_url,
            unit,
        ),
    decreases prices.len(),
{
    if prices.len() > 0 {
        let t = prices.drop_first();
        lemma_price_for(t, mint_url, unit);
        if !price_matches(prices[0], mint_url, unit) {
            if price_for(t, mint_url, unit) is Some {
                let i = choose|i: int|
                    0 <= i < t.len() && price_matches(#[trigger] t[i], mint_url, unit);
                assert(price_matches(prices[i + 1], mint_url, unit));
                let p = price_for(t, mint_url, unit)->0;
                let j = choose|j: int| 0 <= j < t.len() && t[j] == p;
                assert(prices[j + 1] == p);
            }
            if exists|i: int|
                0 <= i < prices.len() && price_matches(#[trigger] prices[i], mint_url, unit) {
                let i = choose|i: int|
                    0 <= i < prices.len() && price_matches(#[trigger] prices[i], mint_url, unit);
                assert(price_matches(t[i - 1], mint_url, unit));
            }
        } else {
            assert(prices.contains(prices[0]));
        }
    }
}

/// Every price that is found under a configuration is a positive number, so no payment is refused
/// for want of one.
pub proof fn lemma_found_prices_are_positive(
    c: Config,
    env: Seq<(String, String)>,
    mint_url: Seq<char>,
    unit: Seq<char>,
)
    requires
        config::is_config_of(c, env),
    ensures
        price_for(c.worker_prices@, mint_url, unit) matches Some(p) ==> price_value(p) is Some,
{
    lemma_price_for(c.worker_prices@, mint_url, unit);
    if let Some(p) = price_for(c.worker_prices@, mint_url, unit) {
        let i = choose|i: int| 0 <= i < c.worker_prices@.len() && c.worker_prices@[i] == p;
        config::lemma_prices_are_complete(c, env, i);
    }
}

// ---------------------------------------------------------------------------------------------
// Authorisation and billing
// ---------------------------------------------------------------------------------------------

/// The smaller of two numbers.
pub open spec fn least(a: nat, b: nat) -> nat {
    if a <= b {
        a
    } else {
        b
    }
}

/// The larger of two numbers.
pub open spec fn greatest(a: nat, b: nat) -> nat {
    if a >= b {
        a
    } else {
        b
    }
}

/// The whole seconds that an amount covers.
pub open spec fn prepaid_seconds(amount: nat, price: nat) -> nat {
    amount / price
}

/// For how many seconds a job may run: what the amount covers, up to the maximum duration.
pub open spec fn timeout_seconds(amount: nat, price: nat, max_duration: nat) -> nat {
    least(prepaid_seconds(amount, price), max_duration)
}

/// The seconds that are billed: the elapsed ones, and no fewer than the minimum duration.
pub open spec fn billable_seconds(elapsed: nat, min_duration: nat) -> nat {
    greatest(elapsed, min_duration)
}

/// What a job costs: its billable seconds, and never more than was paid.
pub open spec fn job_cost(amount: nat, price: nat, elapsed: nat, min_duration: nat) -> nat {
    least(billable_seconds(elapsed, min_duration) * price, amount)
}

/// Whether `a` is what its payment buys: there is a price for the payment, the payment covers the
/// minimum duration, and the job may run for the time that is paid for, up to the maximum duration.
pub open spec fn is_authorization(
    a: PaymentAuthorization,
    prices: Seq<WorkerPrice>,
    min_duration: nat,
    max_duration: nat,
) -> bool {
    let amount = a.payment.amount as nat;
    let price = a.price_per_second as nat;
    let timeout = timeout_seconds(amount, price, max_duration);
    &&& price_for(prices, a.payment.mint_url@, a.payment.unit@) matches Some(p) && price_value(p)
        == Some(price)
    &&& amount >= min_duration * price
    &&& a.prepaid_seconds == prepaid_seconds(amount, price)
    &&& a.timeout == clock::duration_of_secs(timeout as u64)
    &&& clock::secs_of_duration(a.timeout) == timeout
}

/// Decides whether a payment buys a job, and for how long the job may run.
///
/// The payment needs a configured price and has to cover the minimum duration. It then buys as many
/// seconds as it covers, and the job may run for those or for the maximum duration, whichever is
/// less.
pub fn authorize_payment(
    payment: ClaimedPayment,
    prices: &[WorkerPrice],
    min_duration: u64,
    max_duration: u64,
) -> (r: Result<PaymentAuthorization, PaymentError>)
    ensures
        ({
            let price = price_for(prices@, payment.mint_url@, payment.unit@);
            match r {
                Ok(a) => a.payment == payment && is_authorization(
                    a,
                    prices@,
                    min_duration as nat,
                    max_duration as nat,
                ),
                Err(PaymentError::NoPrice { mint_url, unit }) => {
                    &&& price is None
                    &&& mint_url@ == payment.mint_url@
                    &&& unit@ == payment.unit@
                },
                Err(PaymentError::InvalidPrice) => price is Some && price_value(price->0) is None,
                Err(PaymentError::MinimumOverflow) => {
                    &&& price is Some
                    &&& price_value(price->0) matches Some(n) && min_duration * n > u64::MAX
                },
                Err(PaymentError::BelowMinimum { received, required, unit }) => {
                    &&& price is Some
                    &&& price_value(price->0) matches Some(n) && required == min_duration * n
                    &&& received == payment.amount
                    &&& received < required
                    &&& unit@ == payment.unit@
                },
                Err(_) => false,
            }
        }),
{
    let price = match find_price(prices, payment.mint_url.as_str(), payment.unit.as_str()) {
        Ok(p) => p,
        Err(e) => {
            return Err(e);
        },
    };
    let price_per_second: u64 = match parse_price_per_second(price) {
        Ok(n) => n,
        Err(e) => {
            return Err(e);
        },
    };
    let minimum: u64 = match min_duration.checked_mul(price_per_second) {
        Some(n) => n,
        None => {
            return Err(PaymentError::MinimumOverflow);
        },
    };
    if payment.amount < minimum {
        return Err(
            PaymentError::BelowMinimum {
                received: payment.amount,
                required: minimum,
                unit: payment.unit.clone(),
            },
        );
    }
    let prepaid_seconds: u64 = payment.amount / price_per_second;
    let timeout_seconds: u64 = if prepaid_seconds <= max_duration {
        prepaid_seconds
    } else {
        max_duration
    };
    Ok(
        PaymentAuthorization {
            payment,
            price_per_second,
            prepaid_seconds,
            timeout: Duration::from_secs(timeout_seconds),
        },
    )
}

/// Settles the bill of a job that ran for `elapsed_seconds`.
///
/// The job is billed for the time it took, or for the minimum duration where that is longer, and
/// never for more than was paid. What is left of the payment is the change.
pub fn settle_billing(
    authorization: &PaymentAuthorization,
    elapsed_seconds: u64,
    min_duration: u64,
) -> (r: BillingOutcome)
    ensures
        r.duration == elapsed_seconds,
        r.billable_duration == billable_seconds(elapsed_seconds as nat, min_duration as nat),
        r.cost == job_cost(
            authorization.payment.amount as nat,
            authorization.price_per_second as nat,
            elapsed_seconds as nat,
            min_duration as nat,
        ),
        r.change_amount == authorization.payment.amount - r.cost,
{
    let billable_duration: u64 = if elapsed_seconds >= min_duration {
        elapsed_seconds
    } else {
        min_duration
    };
    let amount: u64 = authorization.payment.amount;
    let cost: u64 = match billable_duration.checked_mul(authorization.price_per_second) {
        Some(n) => if n <= amount {
            n
        } else {
            amount
        },
        None => amount,
    };
    assert(0 <= billable_duration * authorization.price_per_second) by (nonlinear_arith)
        requires
            0 <= billable_duration,
            0 <= authorization.price_per_second,
    ;
    BillingOutcome {
        duration: elapsed_seconds,
        billable_duration,
        cost,
        change_amount: amount - cost,
    }
}

/// A job never costs more than was paid for it, and the price of the time that it ran for is
/// charged in full unless the payment does not cover it.
pub proof fn lemma_cost_is_bounded(amount: nat, price: nat, elapsed: nat, min_duration: nat)
    ensures
        job_cost(amount, price, elapsed, min_duration) <= amount,
        job_cost(amount, price, elapsed, min_duration) <= billable_seconds(elapsed, min_duration)
            * price,
        job_cost(amount, price, elapsed, min_duration) == amount || job_cost(
            amount,
            price,
            elapsed,
            min_duration,
        ) == billable_seconds(elapsed, min_duration) * price,
{
}

/// The timeout keeps to the maximum duration and to what was paid for, and a payment that covers
/// the minimum duration buys at least that, up to the maximum.
pub proof fn lemma_timeout_is_paid(amount: nat, price: nat, min_duration: nat, max_duration: nat)
    requires
        price > 0,
        amount >= min_duration * price,
    ensures
        timeout_seconds(amount, price, max_duration) <= max_duration,
        timeout_seconds(amount, price, max_duration) * price <= amount,
        timeout_seconds(amount, price, max_duration) >= least(min_duration, max_duration),
{
    let paid = prepaid_seconds(amount, price);
    let t = timeout_seconds(amount, price, max_duration);
    assert(paid * price <= amount) by (nonlinear_arith)
        requires
            price > 0,
            paid == amount / price,
    ;
    assert(t * price <= paid * price) by (nonlinear_arith)
        requires
            t <= paid,
    ;
    assert(paid >= min_duration) by (nonlinear_arith)
        requires
            price > 0,
            paid == amount / price,
            amount >= min_duration * price,
    ;
}

/// A job that was authorised and kept to its timeout is charged exactly its billable seconds: the
/// payment covers them.
pub proof fn lemma_timely_job_is_charged_exactly(
    amount: nat,
    price: nat,
    elapsed: nat,
    min_duration: nat,
    max_duration: nat,
)
    requires
        price > 0,
        amount >= min_duration * price,
        elapsed <= timeout_seconds(amount, price, max_duration),
    ensures
        job_cost(amount, price, elapsed, min_duration) == billable_seconds(elapsed, min_duration)
            * price,
{
    lemma_timeout_is_paid(amount, price, min_duration, max_duration);
    let t = timeout_seconds(amount, price, max_duration);
    assert(elapsed * price <= t * price) by (nonlinear_arith)
        requires
            elapsed <= t,
    ;
}

/// A longer job costs no less.
pub proof fn lemma_cost_grows(amount: nat, price: nat, shorter: nat, longer: nat, min_duration: nat)
    requires
        shorter <= longer,
    ensures
        job_cost(amount, price, shorter, min_duration) <= job_cost(
            amount,
            price,
            longer,
            min_duration,
        ),
{
    let a = billable_seconds(shorter, min_duration);
    let b = billable_seconds(longer, min_duration);
    assert(a * price <= b * price) by (nonlinear_arith)
        requires
            a <= b,
    ;
}

// ---------------------------------------------------------------------------------------------
// Balances
// ---------------------------------------------------------------------------------------------

/// The sum of the balances for `mint_url` and `unit`.
pub open spec fn balance_total(
    entries: Seq<BalanceView>,
    mint_url: Seq<char>,
    unit: Seq<char>,
) -> nat
    decreases entries.len(),
{
    if entries.len() == 0 {
        0
    } else {
        let rest = balance_total(entries.drop_last(), mint_url, unit);
        let e = entries.last();
        if e.mint_url == mint_url && e.unit == unit {
            rest + e.amount
        } else {
            rest
        }
    }
}

/// The balances of a list of entries.
pub open spec fn balance_views(entries: Seq<BalanceEntry>) -> Seq<BalanceView> {
    entries.map_values(|e: BalanceEntry| e@)
}

proof fn lemma_balance_total_grows(
    entries: Seq<BalanceView>,
    i: int,
    mint_url: Seq<char>,
    unit: Seq<char>,
)
    requires
        0 <= i <= entries.len(),
    ensures
        balance_total(entries.take(i), mint_url, unit) <= balance_total(entries, mint_url, unit),
    decreases entries.len(),
{
    if i < entries.len() {
        lemma_balance_total_grows(entries.drop_last(), i, mint_url, unit);
        assert(entries.drop_last().take(i) =~= entries.take(i));
    } else {
        assert(entries.take(i) =~= entries);
    }
}

/// Adds up the balances for a mint and unit; `None` where the sum does not fit.
pub fn balance_amount(entries: &[BalanceEntry], mint_url: &str, unit: &str) -> (r: Option<u64>)
    ensures
        r is Some <==> balance_total(balance_views(entries@), mint_url@, unit@) <= u64::MAX,
        r matches Some(n) ==> n == balance_total(balance_views(entries@), mint_url@, unit@),
{
    let ghost views = balance_views(entries@);
    let mut sum: u64 = 0;
    let mut i: usize = 0;
    while i < entries.len()
        invariant
            i <= entries@.len(),
            views == balance_views(entries@),
            sum == balance_total(views.take(i as int), mint_url@, unit@),
        decreases entries.len() - i,
    {
        let e = &entries[i];
        assert(views.take(i + 1).drop_last() =~= views.take(i as int));
        assert(views.take(i + 1).last() == e@);
        proof {
            lemma_balance_total_grows(views, i + 1, mint_url@, unit@);
        }
        if same_text(e.mint_url.as_str(), mint_url) && same_text(e.unit.as_str(), unit) {
            match sum.checked_add(e.amount) {
                Some(n) => {
                    sum = n;
                },
                None => {
                    return None;
                },
            }
        }
        i = i + 1;
    }
    assert(views.take(i as int) =~= views);
    Some(sum)
}

/// By how much the balance for a mint and unit grew.
pub fn received_delta(
    before: &[BalanceEntry],
    after: &[BalanceEntry],
    mint_url: &str,
    unit: &str,
) -> (r: Result<u64, PaymentError>)
    ensures
        ({
            let b = balance_total(balance_views(before@), mint_url@, unit@);
            let a = balance_total(balance_views(after@), mint_url@, unit@);
            match r {
                Ok(n) => b <= a <= u64::MAX && n == a - b,
                Err(PaymentError::NoIncrease { mint_url: m, unit: u }) => a < b <= u64::MAX && m@
                    == mint_url@ && u@ == unit@,
                Err(PaymentError::BalanceOverflow { mint_url: m, unit: u }) => (a > u64::MAX || b
                    > u64::MAX) && m@ == mint_url@ && u@ == unit@,
                Err(_) => false,
            }
        }),
{
    match (balance_amount(before, mint_url, unit), balance_amount(after, mint_url, unit)) {
        (Some(b), Some(a)) => match a.checked_sub(b) {
            Some(n) => Ok(n),
            None => Err(
                PaymentError::NoIncrease { mint_url: mint_url.to_string(), unit: unit.to_string() },
            ),
        },
        _ => Err(
            PaymentError::BalanceOverflow {
                mint_url: mint_url.to_string(),
                unit: unit.to_string(),
            },
        ),
    }
}

// ---------------------------------------------------------------------------------------------
// Wallet commands
// ---------------------------------------------------------------------------------------------

/// How to reach the wallet program.
#[derive(Debug)]
pub struct PaymentClient {
    pub cli_path: String,
    pub work_dir: String,
    pub engine: String,
}

/// A command for the wallet.
#[derive(Debug, PartialEq, Eq)]
pub struct WalletCommand {
    pub unit: String,
    pub args: Vec<String>,
    pub stdin: Option<String>,
}

/// What became of a wallet command.
#[derive(Debug, PartialEq, Eq)]
pub enum CommandOutcome {
    /// The program could not be started.
    NotStarted,
    /// The program's standard input could not be opened.
    NoStdin,
    /// The program's standard input could not be written.
    StdinNotWritten,
    /// The program could not be waited for.
    NotAwaited,
    /// The program ended.
    Exited { success: bool, stdout: String, stderr: String },
}

/// What a successful wallet command printed.
#[derive(Debug, PartialEq, Eq)]
pub struct CdkOutput {
    pub stdout: String,
    pub stderr: String,
}

/// Whether `c` is the command `args` for `unit` with `stdin` as its input.
pub open spec fn is_command(
    c: WalletCommand,
    unit: Seq<char>,
    args: Seq<Seq<char>>,
    stdin: Option<Seq<char>>,
) -> bool {
    c.unit@ == unit && c.args.deep_view() == args && text::optional(c.stdin) == stdin
}

/// The arguments of a command that receives a token.
pub open spec fn receive_args(token: Seq<char>, signing_key: Option<Seq<char>>) -> Seq<Seq<char>> {
    let plain = seq!["receive"@, token, "--allow-untrusted"@];
    match signing_key {
        Some(key) => plain + seq!["--signing-key"@, key],
        None => plain,
    }
}

/// The arguments of a command that makes a token of an amount.
pub open spec fn send_args(mint_url: Seq<char>, amount: nat) -> Seq<Seq<char>> {
    seq!["send"@, "--mint-url"@, mint_url, "--amount"@, number::decimal(amount)]
}

/// Whether the command ended with success and printed `stdout` and `stderr`.
pub open spec fn printed(o: CommandOutcome, stdout: Seq<char>, stderr: Seq<char>) -> bool {
    o matches CommandOutcome::Exited { success, stdout: out, stderr: err } && success && out@
        == stdout && err@ == stderr
}

/// Whether the command ended with success.
pub open spec fn succeeded(o: CommandOutcome) -> bool {
    o matches CommandOutcome::Exited { success, .. } && success
}

/// What a command printed on its standard output.
pub open spec fn stdout_of(o: CommandOutcome) -> Seq<char> {
    match o {
        CommandOutcome::Exited { stdout, .. } => stdout@,
        _ => seq![],
    }
}

/// What a command printed on its standard error.
pub open spec fn stderr_of(o: CommandOutcome) -> Seq<char> {
    match o {
        CommandOutcome::Exited { stderr, .. } => stderr@,
        _ => seq![],
    }
}

/// Whether `e` is the error of a command of `client` with this outcome.
pub open spec fn is_command_error(
    client: PaymentClient,
    command: WalletCommand,
    o: CommandOutcome,
    e: CommandError,
) -> bool {
    match o {
        CommandOutcome::NotStarted => e matches CommandError::NotStarted { program } && program@
            == client.cli_path@,
        CommandOutcome::NoStdin => e is NoStdin,
        CommandOutcome::StdinNotWritten => e is StdinNotWritten,
        CommandOutcome::NotAwaited => e is NotAwaited,
        CommandOutcome::Exited { success, stdout, stderr } => !success && (
        e matches CommandError::Failed { args, stdout: out, stderr: err } && args.deep_view()
            == command.args.deep_view() && out@ == stdout@ && err@ == stderr@),
    }
}

/// Whether these are the commands that let the wallet look after what is pending: one for each
/// configured unit, in order.
pub open spec fn are_pending_commands(
    prices: Seq<WorkerPrice>,
    commands: Seq<WalletCommand>,
) -> bool {
    &&& forall|i: int|
        0 <= i < commands.len() ==> is_command(
            #[trigger] commands[i],
            commands[i].unit@,
            seq!["check-pending"@],
            None,
        )
    &&& forall|i: int, j: int|
        0 <= i < j < commands.len() ==> search::text_less(
            (#[trigger] commands[i]).unit@,
            (#[trigger] commands[j]).unit@,
        )
    &&& forall|u: Seq<char>|
        (exists|i: int| 0 <= i < commands.len() && (#[trigger] commands[i]).unit@ == u)
            <==> wallet_output::is_unit_of(prices, u)
}

/// How far a list of commands has come that have to succeed one after the other.
#[derive(Debug, PartialEq, Eq)]
pub enum PendingStep {
    /// The command at this place has to be run.
    Run { next: usize },
    /// All have succeeded, or one has failed.
    Done { result: Result<(), CommandError> },
}

/// Whether the command at a place is run, or all have succeeded where there is none.
pub open spec fn runs_from(count: nat, from: nat, step: PendingStep) -> bool {
    if from < count {
        step matches PendingStep::Run { next } && next == from
    } else {
        step matches PendingStep::Done { result } && result is Ok
    }
}

/// Whether `step` follows when the command at `place` has had the outcome `o`: the first failure ends
/// the list and is its result, and a success leads to the next command.
pub open spec fn is_pending_step(
    client: PaymentClient,
    commands: Seq<WalletCommand>,
    place: nat,
    o: CommandOutcome,
    step: PendingStep,
) -> bool {
    if succeeded(o) {
        runs_from(commands.len(), place + 1, step)
    } else {
        step matches PendingStep::Done { result } && result matches Err(e) && is_command_error(
            client,
            commands[place as int],
            o,
            e,
        )
    }
}

/// Whether the commands were run from the first one on, with these outcomes and what followed each.
pub open spec fn is_pending_run(
    client: PaymentClient,
    commands: Seq<WalletCommand>,
    outcomes: Seq<CommandOutcome>,
    steps: Seq<PendingStep>,
) -> bool {
    &&& steps.len() == outcomes.len() + 1
    &&& runs_from(commands.len(), 0, steps[0])
    &&& forall|i: int|
        0 <= i < outcomes.len() ==> (#[trigger] steps[i] matches PendingStep::Run { next }
            && is_pending_step(client, commands, next as nat, outcomes[i], steps[i + 1]))
}

/// A run goes through the commands in order, up to and including the first that fails. It succeeds
/// exactly where all commands have been run and all have succeeded, and otherwise its result is the
/// failure of the last one that was run. Without commands it succeeds at once.
pub proof fn lemma_pending_needs_every_command(
    client: PaymentClient,
    commands: Seq<WalletCommand>,
    outcomes: Seq<CommandOutcome>,
    steps: Seq<PendingStep>,
)
    requires
        is_pending_run(client, commands, outcomes, steps),
    ensures
        outcomes.len() <= commands.len(),
        forall|i: int| 0 <= i < outcomes.len() - 1 ==> succeeded(#[trigger] outcomes[i]),
        steps.last() matches PendingStep::Run { next } ==> next == outcomes.len(),
        steps.last() matches PendingStep::Done { result: Ok(_) } ==> outcomes.len()
            == commands.len() && forall|i: int|
            0 <= i < outcomes.len() ==> succeeded(#[trigger] outcomes[i]),
        steps.last() matches PendingStep::Done { result: Err(e) } ==> outcomes.len() > 0
            && !succeeded(outcomes.last()) && is_command_error(
            client,
            commands[outcomes.len() - 1],
            outcomes.last(),
            e,
        ),
    decreases outcomes.len(),
{
    if outcomes.len() > 0 {
        let n = outcomes.len() - 1;
        let before = outcomes.drop_last();
        let earlier = steps.drop_last();
        assert forall|i: int| 0 <= i < before.len() implies (
        #[trigger] earlier[i] matches PendingStep::Run { next } && is_pending_step(
            client,
            commands,
            next as nat,
            before[i],
            earlier[i + 1],
        )) by {
            assert(earlier[i] == steps[i] && earlier[i + 1] == steps[i + 1]);
            assert(before[i] == outcomes[i]);
        }
        lemma_pending_needs_every_command(client, commands, before, earlier);
        assert(earlier.last() == steps[n]);
        assert(steps[n] is Run);
        assert(steps[n + 1] == steps.last());
        assert(outcomes[n] == outcomes.last());
        if n > 0 {
            assert(steps[n - 1] is Run);
            assert(earlier[n - 1] == steps[n - 1] && before[n - 1] == outcomes[n - 1]);
            assert(succeeded(outcomes[n - 1]));
        }
        assert forall|i: int| 0 <= i < n implies succeeded(#[trigger] outcomes[i]) by {
            if i < n - 1 {
                assert(before[i] == outcomes[i]);
            }
        }
    }
}

/// A command without input.
fn plain_command(unit: &str, args: Vec<String>) -> (c: WalletCommand)
    ensures
        is_command(c, unit@, args.deep_view(), None),
{
    WalletCommand { unit: unit.to_string(), args, stdin: None }
}

/// A list of one text.
fn single(s: &str) -> (r: Vec<String>)
    ensures
        r.deep_view() == seq![s@],
{
    let mut r: Vec<String> = Vec::new();
    r.push(s.to_string());
    assert(r.deep_view() =~= seq![s@]);
    r
}

impl PaymentClient {
    /// A client for the wallet that the configuration names.
    pub fn new(config: &Config) -> (r: Self)
        ensures
            r.cli_path@ == config.cdk_cli_path@,
            r.work_dir@ == config.cdk_work_dir@,
            r.engine@ == config.cdk_engine@,
    {
        PaymentClient {
            cli_path: config.cdk_cli_path.clone(),
            work_dir: config.cdk_work_dir.clone(),
            engine: config.cdk_engine.clone(),
        }
    }

    /// The arguments that the wallet program is started with.
    pub open spec fn program_args(self, c: WalletCommand) -> Seq<Seq<char>> {
        seq!["--work-dir"@, self.work_dir@, "--engine"@, self.engine@, "--unit"@, c.unit@]
            + c.args.deep_view()
    }

    /// The arguments that the wallet program is started with, for a command.
    pub fn argv(&self, command: &WalletCommand) -> (r: Vec<String>)
        ensures
            r.deep_view() == self.program_args(*command),
    {
        let mut r: Vec<String> = Vec::new();
        r.push("--work-dir".to_string());
        r.push(self.work_dir.clone());
        r.push("--engine".to_string());
        r.push(self.engine.clone());
        r.push("--unit".to_string());
        r.push(command.unit.clone());
        let ghost options = r.deep_view();
        assert(options =~= seq![
            "--work-dir"@,
            self.work_dir@,
            "--engine"@,
            self.engine@,
            "--unit"@,
            command.unit@,
        ]);
        let mut i: usize = 0;
        while i < command.args.len()
            invariant
                i <= command.args@.len(),
                r.deep_view() =~= options + command.args.deep_view().take(i as int),
            decreases command.args.len() - i,
        {
            let ghost before = r.deep_view();
            r.push(command.args[i].clone());
            assert(r.deep_view() =~= before.push(command.args@[i as int]@));
            i = i + 1;
        }
        assert(command.args.deep_view().take(i as int) =~= command.args.deep_view());
        r
    }

    /// Makes an output or an error of what became of a command.
    pub fn finish_command(&self, command: &WalletCommand, outcome: CommandOutcome) -> (r: Result<
        CdkOutput,
        CommandError,
    >)
        ensures
            match r {
                Ok(output) => printed(outcome, output.stdout@, output.stderr@),
                Err(e) => !succeeded(outcome) && is_command_error(*self, *command, outcome, e),
            },
    {
        match outcome {
            CommandOutcome::NotStarted => Err(
                CommandError::NotStarted { program: self.cli_path.clone() },
            ),
            CommandOutcome::NoStdin => Err(CommandError::NoStdin),
            CommandOutcome::StdinNotWritten => Err(CommandError::StdinNotWritten),
            CommandOutcome::NotAwaited => Err(CommandError::NotAwaited),
            CommandOutcome::Exited { success, stdout, stderr } => if success {
                Ok(CdkOutput { stdout, stderr })
            } else {
                Err(CommandError::Failed { args: copy_list(&command.args), stdout, stderr })
            },
        }
    }

    /// The commands that let the wallet look after what is pending: one for each configured unit,
    /// in order.
    pub fn check_pending_for_prices(&self, prices: &[WorkerPrice]) -> (r: Vec<WalletCommand>)
        ensures
            are_pending_commands(prices@, r@),
    {
        let units = unique_units(prices);
        let ghost all = units.deep_view();
        let mut r: Vec<WalletCommand> = Vec::new();
        let mut i: usize = 0;
        while i < units.len()
            invariant
                i <= units@.len(),
                r@.len() == i,
                all == units.deep_view(),
                forall|j: int|
                    0 <= j < i ==> is_command(#[trigger] r@[j], all[j], seq!["check-pending"@], None),
            decreases units.len() - i,
        {
            r.push(plain_command(units[i].as_str(), single("check-pending")));
            i = i + 1;
        }
        assert forall|u: Seq<char>|
            (exists|i: int| 0 <= i < r@.len() && (#[trigger] r@[i]).unit@ == u)
                <==> wallet_output::is_unit_of(prices@, u) by {
            if wallet_output::is_unit_of(prices@, u) {
                assert(all.contains(u));
                let j = choose|j: int| 0 <= j < all.len() && all[j] == u;
                assert(r@[j].unit@ == u);
            }
            if exists|i: int| 0 <= i < r@.len() && (#[trigger] r@[i]).unit@ == u {
                let j = choose|i: int| 0 <= i < r@.len() && (#[trigger] r@[i]).unit@ == u;
                assert(all[j] == u);
                assert(all.contains(u));
            }
        }
        r
    }

    /// Begins to run the commands that look after what is pending.
    pub fn begin_pending(&self, commands: &Vec<WalletCommand>) -> (r: PendingStep)
        ensures
            runs_from(commands@.len(), 0, r),
    {
        if commands.len() > 0 {
            PendingStep::Run { next: 0 }
        } else {
            PendingStep::Done { result: Ok(()) }
        }
    }

    /// Goes on when the command at `place` has been run.
    pub fn resume_pending(
        &self,
        commands: &Vec<WalletCommand>,
        place: usize,
        outcome: CommandOutcome,
    ) -> (r: PendingStep)
        requires
            place < commands@.len(),
        ensures
            is_pending_step(*self, commands@, place as nat, outcome, r),
    {
        assert(commands.len() <= usize::MAX);
        match self.finish_command(&commands[place], outcome) {
            Ok(_) => if place + 1 < commands.len() {
                PendingStep::Run { next: place + 1 }
            } else {
                PendingStep::Done { result: Ok(()) }
            },
            Err(e) => PendingStep::Done { result: Err(e) },
        }
    }

    /// The command that makes a token of the change.
    pub fn send_change(&self, mint_url: &str, unit: &str, amount: u64) -> (r: Result<
        WalletCommand,
        PaymentError,
    >)
        ensures
            match r {
                Ok(c) => amount > 0 && is_command(
                    c,
                    unit@,
                    send_args(mint_url@, amount as nat),
                    Some("\n"@),
                ),
                Err(e) => amount == 0 && e is NoChange,
            },
    {
        if amount == 0 {
            return Err(PaymentError::NoChange);
        }
        let mut args: Vec<String> = Vec::new();
        args.push("send".to_string());
        args.push("--mint-url".to_string());
        args.push(mint_url.to_string());
        args.push("--amount".to_string());
        args.push(decimal_text(amount));
        assert(args.deep_view() =~= send_args(mint_url@, amount as nat));
        Ok(WalletCommand { unit: unit.to_string(), args, stdin: Some("\n".to_string()) })
    }

    /// The token that the wallet printed for the change, on either of its outputs.
    pub open spec fn change_token_of(o: CommandOutcome) -> Option<Seq<char>> {
        match wallet_output::first_token(text::words(stdout_of(o))) {
            Some(t) => Some(t),
            None => wallet_output::first_token(text::words(stderr_of(o))),
        }
    }

    /// Reads the token of the change off what became of the command that makes it.
    pub fn change_token(&self, command: &WalletCommand, outcome: CommandOutcome) -> (r: Result<
        String,
        PaymentError,
    >)
        ensures
            match r {
                Ok(t) => succeeded(outcome) && Self::change_token_of(outcome) == Some(t@),
                Err(PaymentError::NoToken) => succeeded(outcome) && Self::change_token_of(
                    outcome,
                ) is None,
                Err(PaymentError::Command(e)) => !succeeded(outcome) && is_command_error(
                    *self,
                    *command,
                    outcome,
                    e,
                ),
                Err(_) => false,
            },
    {
        match self.finish_command(command, outcome) {
            Ok(output) => match parse_cashu_token(output.stdout.as_str()) {
                Some(t) => Ok(t),
                None => match parse_cashu_token(output.stderr.as_str()) {
                    Some(t) => Ok(t),
                    None => Err(PaymentError::NoToken),
                },
            },
            Err(e) => Err(PaymentError::Command(e)),
        }
    }
}

} // verus!
