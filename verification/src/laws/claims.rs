//! Laws on claiming a payment: which commands are run, and what the claim comes to.

use vstd::prelude::*;

use crate::claim;
use crate::claim::{ClaimProgress, ClaimStage, ClaimState};
use crate::config::WorkerPrice;
use crate::laws::billing;
use crate::laws::wallet;
use crate::payments;
use crate::payments::{CommandOutcome, PaymentClient};
use crate::search;
use crate::text;
use crate::wallet_output;

verus! {

/// Whether a unit is configured.
pub open spec fn is_configured(prices: Seq<WorkerPrice>, unit: Seq<char>) -> bool {
    exists|i: int| 0 <= i < prices.len() && (#[trigger] prices[i]).unit@ == unit
}

/// A token of a configured mint and unit is claimed. Where the wallet decodes a token and prints one URL
/// and one of the configured units, and a price is configured for the two, the claim goes on with that
/// very URL and unit, and asks for the balance of the unit.
pub proof fn lemma_priced_tokens_are_claimed(
    client: PaymentClient,
    token: Seq<char>,
    prices: Seq<WorkerPrice>,
    signing_key: Option<Seq<char>>,
    state: ClaimState,
    o: CommandOutcome,
    next: ClaimProgress,
    a: Seq<char>,
    open: char,
    u: Seq<char>,
    close: char,
    b: Seq<char>,
    unit: Seq<char>,
)
    requires
        claim::is_claim_step(client, token, prices, signing_key, state, o, next),
        state.stage is Decode,
        o matches CommandOutcome::Exited { success, stdout, .. } && success && stdout@ == a.push(
            open,
        ) + u + seq![close] + b,
        wallet::has_no_url(a),
        wallet::has_no_url(b),
        wallet::ends_url(open),
        wallet::ends_url(close),
        wallet::is_url_with(u, "https://"@) || wallet::is_url_with(u, "http://"@),
        wallet::has_no_url(u.drop_first()),
        is_configured(prices, unit),
        wallet_output::mentions_unit(a.push(open) + u + seq![close] + b, unit),
        forall|v: Seq<char>|
            #[trigger] is_configured(prices, v) && wallet_output::mentions_unit(
                a.push(open) + u + seq![close] + b,
                v,
            ) ==> v == unit,
        exists|i: int|
            0 <= i < prices.len() && (#[trigger] prices[i]).mint_url@ == u && prices[i].unit@
                == unit,
    ensures
        next matches ClaimProgress::Run(t) && t.stage matches ClaimStage::BalanceBefore { metadata }
            && metadata.mint_url@ == u && metadata.unit@ == unit && t.command.unit@ == unit
            && t.command.args.deep_view() == seq!["balance"@],
{
    let s = a.push(open) + u + seq![close] + b;
    wallet::lemma_single_url_is_read(a, open, u, close, b);
    assert(payments::succeeded(o));
    assert(payments::stdout_of(o) == s);
    assert forall|v: Seq<char>| #[trigger] wallet_output::is_token_unit(s, prices, v) implies v
        == unit by {
        assert(is_configured(prices, v));
    }
    assert(wallet_output::is_token_unit(s, prices, unit));
    assert(wallet_output::tells_metadata(s, prices, u, unit));
    assert forall|m: Seq<char>, v: Seq<char>| #[trigger]
        claim::decoded_as(o, prices, m, v) implies m == u && v == unit by {
        assert(wallet_output::tells_metadata(s, prices, m, v));
        assert(seq![m][0] == seq![u][0]);
    }
    assert(claim::decoded_as(o, prices, u, unit));
    billing::lemma_first_price_counts(prices, u, unit);
}

/// Which commands a claim runs. It begins by decoding the token; then the balance is asked for, and then
/// the token is received, with the key that unlocks it where there is one; the balance is asked for once
/// more only where the wallet did not say what it received. Every command is for the unit of the token.
pub proof fn lemma_claim_commands(
    client: PaymentClient,
    token: Seq<char>,
    prices: Seq<WorkerPrice>,
    signing_key: Option<Seq<char>>,
    state: ClaimState,
    o: CommandOutcome,
    next: ClaimProgress,
)
    requires
        claim::is_claim_step(client, token, prices, signing_key, state, o, next),
    ensures
        next matches ClaimProgress::Run(t) ==> {
            &&& text::optional(t.command.stdin) is None
            &&& match t.stage {
                ClaimStage::Decode => false,
                ClaimStage::BalanceBefore { metadata } => {
                    &&& state.stage is Decode
                    &&& t.command.args.deep_view() == seq!["balance"@]
                    &&& t.command.unit@ == metadata.unit@
                },
                ClaimStage::Receive { metadata, .. } => {
                    &&& state.stage matches ClaimStage::BalanceBefore { metadata: m }
                    &&& m == metadata
                    &&& t.command.unit@ == metadata.unit@
                    &&& t.command.args.deep_view() == match signing_key {
                        Some(key) => seq![
                            "receive"@,
                            token,
                            "--allow-untrusted"@,
                            "--signing-key"@,
                            key,
                        ],
                        None => seq!["receive"@, token, "--allow-untrusted"@],
                    }
                },
                ClaimStage::BalanceAfter { metadata, before } => {
                    &&& state.stage matches ClaimStage::Receive { metadata: m, before: b }
                    &&& m == metadata && b@ == before@
                    &&& t.command.args.deep_view() == seq!["balance"@]
                    &&& t.command.unit@ == metadata.unit@
                },
            }
        },
        next is Run ==> (o matches CommandOutcome::Exited { success, .. } && success),
        !(o matches CommandOutcome::Exited { success, .. } && success) ==> (
        next matches ClaimProgress::Done(r) && r is Err),
{
    match signing_key {
        Some(key) => {
            assert(payments::receive_args(token, signing_key) =~= seq![
                "receive"@,
                token,
                "--allow-untrusted"@,
                "--signing-key"@,
                key,
            ]);
        },
        None => {},
    }
}

/// What a claim comes to. Where the wallet says how much it received, the claim is for that amount; it is
/// said on the first line that speaks of it, on the standard output before the standard error. Where it
/// says nothing, the balance is asked for.
pub proof fn lemma_stated_amounts_are_claimed(
    client: PaymentClient,
    token: Seq<char>,
    prices: Seq<WorkerPrice>,
    signing_key: Option<Seq<char>>,
    state: ClaimState,
    o: CommandOutcome,
    next: ClaimProgress,
    n: nat,
    i: int,
)
    requires
        claim::is_claim_step(client, token, prices, signing_key, state, o, next),
        state.stage is Receive,
        payments::succeeded(o),
    ensures
        n > 0 && wallet::first_to_state(text::lines(payments::stdout_of(o)), i, n) ==> (
        next matches ClaimProgress::Done(Ok(p)) && p.amount == n && p.mint_url@
            == state.stage->Receive_metadata.mint_url@ && p.unit@
            == state.stage->Receive_metadata.unit@),
        n > 0 && (forall|k: int, m: nat|
            m > 0 ==> !#[trigger] wallet::first_to_state(
                text::lines(payments::stdout_of(o)),
                k,
                m,
            )) && wallet::first_to_state(text::lines(payments::stderr_of(o)), i, n) ==> (
        next matches ClaimProgress::Done(Ok(p)) && p.amount == n && p.mint_url@
            == state.stage->Receive_metadata.mint_url@ && p.unit@
            == state.stage->Receive_metadata.unit@),
        next matches ClaimProgress::Done(r) ==> r is Ok,
{
    let out = payments::stdout_of(o);
    let err = payments::stderr_of(o);
    wallet::lemma_received_amount(out, n);
    wallet::lemma_received_amount(err, n);
    if let Some(m) = wallet_output::received_amount(out) {
        wallet::lemma_received_amount(out, m);
    }
}

/// What a claim comes to where the wallet did not say how much it received: by how much the balance of
/// the mint and unit has grown, where it has.
pub proof fn lemma_grown_balances_are_claimed(
    client: PaymentClient,
    token: Seq<char>,
    prices: Seq<WorkerPrice>,
    signing_key: Option<Seq<char>>,
    state: ClaimState,
    o: CommandOutcome,
    next: ClaimProgress,
)
    requires
        claim::is_claim_step(client, token, prices, signing_key, state, o, next),
        state.stage is BalanceAfter,
        payments::succeeded(o),
    ensures
        ({
            let metadata = state.stage->BalanceAfter_metadata;
            let before = payments::balance_total(
                payments::balance_views(state.stage->BalanceAfter_before@),
                metadata.mint_url@,
                metadata.unit@,
            );
            let after = payments::balance_total(
                wallet_output::balances(payments::stdout_of(o)),
                metadata.mint_url@,
                metadata.unit@,
            );
            &&& next is Done
            &&& before < after <= u64::MAX ==> (next matches ClaimProgress::Done(Ok(p))
                && p.amount == after - before && p.mint_url@ == metadata.mint_url@ && p.unit@
                == metadata.unit@)
            &&& before == after && after <= u64::MAX ==> (next matches ClaimProgress::Done(Err(e))
                && e is ZeroAmount)
            &&& after < before && before <= u64::MAX ==> (next matches ClaimProgress::Done(Err(e))
                && e is NoIncrease)
        }),
{
}

/// A claim begins with decoding the token, in the first of the configured units by the order of texts,
/// and without input. Without prices there is nothing that a token could be decoded for.
pub proof fn lemma_claims_begin_with_decoding(
    token: Seq<char>,
    prices: Seq<WorkerPrice>,
    start: ClaimProgress,
    p: int,
)
    requires
        claim::is_claim_start(token, prices, start),
        0 <= p < prices.len(),
    ensures
        start matches ClaimProgress::Run(s) && {
            &&& s.command.args@.len() == 2
            &&& s.command.args@[0]@ == "decode-token"@
            &&& s.command.args@[1]@ == token
            &&& s.command.stdin is None
            &&& exists|q: int|
                0 <= q < prices.len() && (#[trigger] prices[q]).unit@ == s.command.unit@
            &&& s.command.unit@ == prices[p].unit@ || search::text_less(
                s.command.unit@,
                prices[p].unit@,
            )
        },
{
    if let ClaimProgress::Run(s) = start {
        assert(s.command.args.deep_view().len() == s.command.args@.len());
        assert(s.command.args.deep_view()[0] == s.command.args@[0]@);
        assert(s.command.args.deep_view()[1] == s.command.args@[1]@);
        assert(wallet_output::is_unit_of(prices, prices[p].unit@));
    }
}

} // verus!
