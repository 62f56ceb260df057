//! Claiming a payment: decode the token, look at the balance, receive the token, and find out how
//! much it was worth.
//!
//! A claim is a sequence of wallet commands. Each step takes what became of the last command and
//! says which command comes next, or how the claim ends.

use vstd::prelude::*;

use crate::config::WorkerPrice;
use crate::payments;
use crate::payments::{
    find_price, parse_balance_entries, parse_received_amount, parse_token_metadata,
    received_delta, unique_units, BalanceEntry, ClaimedPayment, CommandOutcome, DecodeError,
    PaymentClient, PaymentError, TokenMetadata, WalletCommand,
};
use crate::search;
use crate::text;
use crate::wallet_output;

verus! {

/// Which command of a claim is under way, and what is known by then.
#[derive(Debug, PartialEq, Eq)]
pub enum ClaimStage {
    /// The token is being decoded.
    Decode,
    /// The balance is being read before the token is received.
    BalanceBefore { metadata: TokenMetadata },
    /// The token is being received.
    Receive { metadata: TokenMetadata, before: Vec<BalanceEntry> },
    /// The balance is being read after the token was received.
    BalanceAfter { metadata: TokenMetadata, before: Vec<BalanceEntry> },
}

/// A claim under way: its stage, and the command that has to be run next.
#[derive(Debug, PartialEq, Eq)]
pub struct ClaimState {
    pub stage: ClaimStage,
    pub command: WalletCommand,
}

/// A claim that goes on, or has ended.
#[derive(Debug, PartialEq, Eq)]
pub enum ClaimProgress {
    Run(ClaimState),
    Done(Result<ClaimedPayment, PaymentError>),
}

/// Whether `unit` is the first of the configured units.
pub open spec fn is_first_unit(prices: Seq<WorkerPrice>, unit: Seq<char>) -> bool {
    &&& wallet_output::is_unit_of(prices, unit)
    &&& forall|u: Seq<char>|
        #[trigger] wallet_output::is_unit_of(prices, u) && u != unit ==> search::text_less(unit, u)
}

/// Whether a decoded token is for `mint_url` and `unit`: its standard output says so or, where that
/// says nothing, its standard error.
pub open spec fn decoded_as(
    o: CommandOutcome,
    prices: Seq<WorkerPrice>,
    mint_url: Seq<char>,
    unit: Seq<char>,
) -> bool {
    ||| wallet_output::tells_metadata(payments::stdout_of(o), prices, mint_url, unit)
    ||| {
        &&& forall|m: Seq<char>, u: Seq<char>|
            !wallet_output::tells_metadata(payments::stdout_of(o), prices, m, u)
        &&& wallet_output::tells_metadata(payments::stderr_of(o), prices, mint_url, unit)
    }
}

/// The amount that the wallet says it received, on either of its outputs.
pub open spec fn received_of(o: CommandOutcome) -> Option<nat> {
    match wallet_output::received_amount(payments::stdout_of(o)) {
        Some(n) => Some(n),
        None => wallet_output::received_amount(payments::stderr_of(o)),
    }
}

/// Whether a claim of `token` begins like this.
pub open spec fn is_claim_start(
    token: Seq<char>,
    prices: Seq<WorkerPrice>,
    next: ClaimProgress,
) -> bool {
    match next {
        ClaimProgress::Run(s) => {
            &&& s.stage is Decode
            &&& is_first_unit(prices, s.command.unit@)
            &&& payments::is_command(
                s.command,
                s.command.unit@,
                seq!["decode-token"@, token],
                None,
            )
        },
        ClaimProgress::Done(r) => prices.len() == 0 && r matches Err(PaymentError::Decode(
            DecodeError::NoPrices,
        )),
    }
}

/// Whether a balance command for `unit` comes next.
pub open spec fn is_balance_command(c: WalletCommand, unit: Seq<char>) -> bool {
    payments::is_command(c, unit, seq!["balance"@], None)
}

/// What follows when the decoding of the token has ended.
pub open spec fn after_decode(
    prices: Seq<WorkerPrice>,
    o: CommandOutcome,
    next: ClaimProgress,
) -> bool {
    match next {
        ClaimProgress::Run(t) => {
            &&& t.stage matches ClaimStage::BalanceBefore { metadata }
            &&& decoded_as(o, prices, metadata.mint_url@, metadata.unit@)
            &&& payments::price_for(prices, metadata.mint_url@, metadata.unit@) is Some
            &&& is_balance_command(t.command, metadata.unit@)
        },
        ClaimProgress::Done(Err(PaymentError::Decode(DecodeError::NoMintAndUnit))) => forall|
            m: Seq<char>,
            u: Seq<char>,
        |
            !decoded_as(o, prices, m, u),
        ClaimProgress::Done(Err(PaymentError::NoPrice { mint_url, unit })) => {
            &&& decoded_as(o, prices, mint_url@, unit@)
            &&& payments::price_for(prices, mint_url@, unit@) is None
        },
        ClaimProgress::Done(_) => false,
    }
}

/// What follows when the balance has been read before the token is received.
pub open spec fn after_balance_before(
    token: Seq<char>,
    signing_key: Option<Seq<char>>,
    metadata: TokenMetadata,
    o: CommandOutcome,
    next: ClaimProgress,
) -> bool {
    &&& next matches ClaimProgress::Run(t)
    &&& t.stage matches ClaimStage::Receive { metadata: m, before }
    &&& m == metadata
    &&& payments::balance_views(before@) == wallet_output::balances(payments::stdout_of(o))
    &&& payments::is_command(
        t.command,
        metadata.unit@,
        payments::receive_args(token, signing_key),
        None,
    )
}

/// What follows when the token has been received.
pub open spec fn after_receive(
    metadata: TokenMetadata,
    before: Seq<BalanceEntry>,
    o: CommandOutcome,
    next: ClaimProgress,
) -> bool {
    match received_of(o) {
        Some(n) => next matches ClaimProgress::Done(Ok(p)) && is_claimed(p, metadata, n),
        None => {
            &&& next matches ClaimProgress::Run(t)
            &&& t.stage matches ClaimStage::BalanceAfter { metadata: m, before: b }
            &&& m == metadata
            &&& b@ == before
            &&& is_balance_command(t.command, metadata.unit@)
        },
    }
}

/// What follows when the balance has been read after the token was received.
pub open spec fn after_balance_after(
    metadata: TokenMetadata,
    before: Seq<BalanceEntry>,
    o: CommandOutcome,
    next: ClaimProgress,
) -> bool {
    let m = metadata.mint_url@;
    let u = metadata.unit@;
    let b = payments::balance_total(payments::balance_views(before), m, u);
    let a = payments::balance_total(wallet_output::balances(payments::stdout_of(o)), m, u);
    match next {
        ClaimProgress::Run(_) => false,
        ClaimProgress::Done(Ok(p)) => b < a <= u64::MAX && is_claimed(p, metadata, (a - b) as nat),
        ClaimProgress::Done(Err(PaymentError::ZeroAmount)) => b == a <= u64::MAX,
        ClaimProgress::Done(Err(PaymentError::NoIncrease { mint_url, unit })) => a < b <= u64::MAX
            && mint_url@ == m && unit@ == u,
        ClaimProgress::Done(Err(PaymentError::BalanceOverflow { mint_url, unit })) => (a > u64::MAX
            || b > u64::MAX) && mint_url@ == m && unit@ == u,
        ClaimProgress::Done(Err(_)) => false,
    }
}

/// Whether `p` is a payment of `amount` for the mint and unit of the token.
pub open spec fn is_claimed(p: ClaimedPayment, metadata: TokenMetadata, amount: nat) -> bool {
    p.mint_url@ == metadata.mint_url@ && p.unit@ == metadata.unit@ && p.amount == amount
}

/// Whether `next` follows `state` when its command has had the outcome `o`.
pub open spec fn is_claim_step(
    client: PaymentClient,
    token: Seq<char>,
    prices: Seq<WorkerPrice>,
    signing_key: Option<Seq<char>>,
    state: ClaimState,
    o: CommandOutcome,
    next: ClaimProgress,
) -> bool {
    if !payments::succeeded(o) {
        match next {
            ClaimProgress::Done(Err(PaymentError::Decode(DecodeError::Command(e)))) =>
                state.stage is Decode && payments::is_command_error(client, state.command, o, e),
            ClaimProgress::Done(Err(PaymentError::Command(e))) => !(state.stage is Decode)
                && payments::is_command_error(client, state.command, o, e),
            _ => false,
        }
    } else {
        match state.stage {
            ClaimStage::Decode => after_decode(prices, o, next),
            ClaimStage::BalanceBefore { metadata } => after_balance_before(
                token,
                signing_key,
                metadata,
                o,
                next,
            ),
            ClaimStage::Receive { metadata, before } => after_receive(metadata, before@, o, next),
            ClaimStage::BalanceAfter { metadata, before } => after_balance_after(
                metadata,
                before@,
                o,
                next,
            ),
        }
    }
}

/// A command that prints the balance for `unit`.
fn balance_command(unit: &str) -> (c: WalletCommand)
    ensures
        is_balance_command(c, unit@),
{
    let mut args: Vec<String> = Vec::new();
    args.push("balance".to_string());
    assert(args.deep_view() =~= seq!["balance"@]);
    WalletCommand { unit: unit.to_string(), args, stdin: None }
}

/// A command that receives a token.
fn receive_command(unit: &str, token: &str, signing_key: Option<&str>) -> (c: WalletCommand)
    ensures
        payments::is_command(
            c,
            unit@,
            payments::receive_args(token@, text::optional_str(signing_key)),
            None,
        ),
{
    let mut args: Vec<String> = Vec::new();
    args.push("receive".to_string());
    args.push(token.to_string());
    args.push("--allow-untrusted".to_string());
    match signing_key {
        Some(key) => {
            args.push("--signing-key".to_string());
            args.push(key.to_string());
        },
        None => {},
    }
    assert(args.deep_view() =~= payments::receive_args(token@, text::optional_str(signing_key)));
    WalletCommand { unit: unit.to_string(), args, stdin: None }
}

impl PaymentClient {
    /// Begins to claim a payment: the token is decoded first, with the first configured unit.
    pub fn claim_payment(&self, token: &str, prices: &[WorkerPrice]) -> (r: ClaimProgress)
        ensures
            is_claim_start(token@, prices@, r),
    {
        let units = unique_units(prices);
        if units.len() == 0 {
            proof {
                if prices@.len() > 0 {
                    assert(wallet_output::is_unit_of(prices@, prices@[0].unit@));
                    assert(units.deep_view().contains(prices@[0].unit@));
                }
            }
            return ClaimProgress::Done(Err(PaymentError::Decode(DecodeError::NoPrices)));
        }
        let ghost all = units.deep_view();
        let mut args: Vec<String> = Vec::new();
        args.push("decode-token".to_string());
        args.push(token.to_string());
        assert(args.deep_view() =~= seq!["decode-token"@, token@]);
        proof {
            assert(all[0] == units@[0]@);
            assert(all.contains(all[0]));
            assert forall|u: Seq<char>|
                #[trigger] wallet_output::is_unit_of(prices@, u) && u
                    != all[0] implies search::text_less(all[0], u) by {
                assert(all.contains(u));
                let j = choose|j: int| 0 <= j < all.len() && all[j] == u;
                assert(search::text_less(all[0], all[j]));
            }
        }
        let unit: String = units[0].clone();
        ClaimProgress::Run(
            ClaimState {
                stage: ClaimStage::Decode,
                command: WalletCommand { unit, args, stdin: None },
            },
        )
    }

    /// Goes on with a claim when its command has ended.
    pub fn resume_claim(
        &self,
        token: &str,
        prices: &[WorkerPrice],
        signing_key: Option<&str>,
        state: ClaimState,
        outcome: CommandOutcome,
    ) -> (r: ClaimProgress)
        ensures
            is_claim_step(
                *self,
                token@,
                prices@,
                text::optional_str(signing_key),
                state,
                outcome,
                r,
            ),
    {
        let output = match self.finish_command(&state.command, outcome) {
            Ok(output) => output,
            Err(e) => {
                return match state.stage {
                    ClaimStage::Decode => ClaimProgress::Done(
                        Err(PaymentError::Decode(DecodeError::Command(e))),
                    ),
                    _ => ClaimProgress::Done(Err(PaymentError::Command(e))),
                };
            },
        };
        match state.stage {
            ClaimStage::Decode => {
                let first = parse_token_metadata(output.stdout.as_str(), prices);
                let found = if first.is_some() {
                    first
                } else {
                    parse_token_metadata(output.stderr.as_str(), prices)
                };
                match found {
                    Some(metadata) => {
                        match find_price(
                            prices,
                            metadata.mint_url.as_str(),
                            metadata.unit.as_str(),
                        ) {
                            Ok(_) => {
                                let command = balance_command(metadata.unit.as_str());
                                ClaimProgress::Run(
                                    ClaimState {
                                        stage: ClaimStage::BalanceBefore { metadata },
                                        command,
                                    },
                                )
                            },
                            Err(e) => ClaimProgress::Done(Err(e)),
                        }
                    },
                    None => ClaimProgress::Done(
                        Err(PaymentError::Decode(DecodeError::NoMintAndUnit)),
                    ),
                }
            },
            ClaimStage::BalanceBefore { metadata } => {
                let before = parse_balance_entries(output.stdout.as_str());
                let command = receive_command(metadata.unit.as_str(), token, signing_key);
                ClaimProgress::Run(
                    ClaimState { stage: ClaimStage::Receive { metadata, before }, command },
                )
            },
            ClaimStage::Receive { metadata, before } => {
                let first = parse_received_amount(output.stdout.as_str());
                let found = if first.is_some() {
                    first
                } else {
                    parse_received_amount(output.stderr.as_str())
                };
                match found {
                    Some(amount) => ClaimProgress::Done(
                        Ok(
                            ClaimedPayment {
                                mint_url: metadata.mint_url,
                                unit: metadata.unit,
                                amount,
                            },
                        ),
                    ),
                    None => {
                        let command = balance_command(metadata.unit.as_str());
                        ClaimProgress::Run(
                            ClaimState {
                                stage: ClaimStage::BalanceAfter { metadata, before },
                                command,
                            },
                        )
                    },
                }
            },
            ClaimStage::BalanceAfter { metadata, before } => {
                let after = parse_balance_entries(output.stdout.as_str());
                match received_delta(
                    before.as_slice(),
                    after.as_slice(),
                    metadata.mint_url.as_str(),
                    metadata.unit.as_str(),
                ) {
                    Ok(amount) => if amount == 0 {
                        ClaimProgress::Done(Err(PaymentError::ZeroAmount))
                    } else {
                        ClaimProgress::Done(
                            Ok(
                                ClaimedPayment {
                                    mint_url: metadata.mint_url,
                                    unit: metadata.unit,
                                    amount,
                                },
                            ),
                        )
                    },
                    Err(e) => ClaimProgress::Done(Err(e)),
                }
            },
        }
    }
}

// ---------------------------------------------------------------------------------------------
// Laws
// ---------------------------------------------------------------------------------------------

/// What is known of the token at a stage: once it is decoded, its mint and unit have a price.
pub open spec fn is_priced(prices: Seq<WorkerPrice>, stage: ClaimStage) -> bool {
    match stage {
        ClaimStage::Decode => true,
        ClaimStage::BalanceBefore { metadata } => payments::price_for(
            prices,
            metadata.mint_url@,
            metadata.unit@,
        ) is Some,
        ClaimStage::Receive { metadata, .. } => payments::price_for(
            prices,
            metadata.mint_url@,
            metadata.unit@,
        ) is Some,
        ClaimStage::BalanceAfter { metadata, .. } => payments::price_for(
            prices,
            metadata.mint_url@,
            metadata.unit@,
        ) is Some,
    }
}

/// How many commands a claim may still run, the one under way included.
pub open spec fn commands_left(stage: ClaimStage) -> nat {
    match stage {
        ClaimStage::Decode => 4,
        ClaimStage::BalanceBefore { .. } => 3,
        ClaimStage::Receive { .. } => 2,
        ClaimStage::BalanceAfter { .. } => 1,
    }
}

/// A token is received only for a mint and unit that have a configured price, and what is claimed
/// is for such a mint and unit, and is not nothing. This holds of every claim: it holds at the
/// start, and every step keeps it.
pub proof fn lemma_claims_are_priced(
    client: PaymentClient,
    token: Seq<char>,
    prices: Seq<WorkerPrice>,
    signing_key: Option<Seq<char>>,
    state: ClaimState,
    o: CommandOutcome,
    next: ClaimProgress,
)
    requires
        is_priced(prices, state.stage),
        is_claim_step(client, token, prices, signing_key, state, o, next),
    ensures
        next matches ClaimProgress::Run(t) ==> is_priced(prices, t.stage),
        next matches ClaimProgress::Done(Ok(p)) ==> payments::price_for(
            prices,
            p.mint_url@,
            p.unit@,
        ) is Some && p.amount > 0,
{
}

/// A claim ends: every step leaves fewer commands to run, and there are at most four.
pub proof fn lemma_claims_end(
    client: PaymentClient,
    token: Seq<char>,
    prices: Seq<WorkerPrice>,
    signing_key: Option<Seq<char>>,
    state: ClaimState,
    o: CommandOutcome,
    next: ClaimProgress,
)
    requires
        is_claim_step(client, token, prices, signing_key, state, o, next),
    ensures
        commands_left(state.stage) <= 4,
        next matches ClaimProgress::Run(t) ==> commands_left(t.stage) < commands_left(state.stage),
{
}

/// The steps are determined: two claims that go on from the same state with the same outcome both
/// go on or both end, and ask for the same thing.
pub proof fn lemma_claim_steps_agree(
    client: PaymentClient,
    token: Seq<char>,
    prices: Seq<WorkerPrice>,
    signing_key: Option<Seq<char>>,
    state: ClaimState,
    o: CommandOutcome,
    a: ClaimProgress,
    b: ClaimProgress,
)
    requires
        is_claim_step(client, token, prices, signing_key, state, o, a),
        is_claim_step(client, token, prices, signing_key, state, o, b),
    ensures
        a is Run <==> b is Run,
        a matches ClaimProgress::Run(s) ==> (b matches ClaimProgress::Run(t) && s.command.unit@
            == t.command.unit@ && s.command.args.deep_view() == t.command.args.deep_view()),
        a matches ClaimProgress::Done(Ok(p)) ==> (b matches ClaimProgress::Done(Ok(q)) && p.mint_url@
            == q.mint_url@ && p.unit@ == q.unit@ && p.amount == q.amount),
{
    if payments::succeeded(o) && state.stage is Decode {
        assert forall|m: Seq<char>, u: Seq<char>, n: Seq<char>, v: Seq<char>|
            #[trigger] decoded_as(o, prices, m, u) && #[trigger] decoded_as(
                o,
                prices,
                n,
                v,
            ) implies m == n && u == v by {
            assert(seq![m][0] == m && seq![n][0] == n);
            assert(wallet_output::is_token_unit(payments::stdout_of(o), prices, u)
                || wallet_output::is_token_unit(payments::stderr_of(o), prices, u));
            assert(wallet_output::is_token_unit(payments::stdout_of(o), prices, v)
                || wallet_output::is_token_unit(payments::stderr_of(o), prices, v));
        }
    }
}

} // verus!
