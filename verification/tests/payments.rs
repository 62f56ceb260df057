use std::time::Duration;

use runner_controller::claim::{ClaimProgress, ClaimStage, ClaimState};
use runner_controller::config::WorkerPrice;
use runner_controller::payments::{
    authorize_payment, balance_amount, find_price, parse_balance_entries, parse_cashu_token,
    parse_price_per_second, parse_received_amount, parse_token_metadata, received_delta,
    settle_billing, unique_units, BalanceEntry, BillingOutcome, ClaimedPayment, CommandError,
    CommandOutcome, DecodeError, PaymentClient, PaymentError, TokenMetadata, WalletCommand,
};
use runner_controller::wallet_output::{first_u64, output_mentions_unit, unique_urls};

fn price(mint_url: &str, price_per_second: &str, unit: &str) -> WorkerPrice {
    WorkerPrice {
        mint_url: mint_url.to_string(),
        price_per_second: price_per_second.to_string(),
        unit: unit.to_string(),
    }
}

fn prices() -> Vec<WorkerPrice> {
    vec![WorkerPrice {
        mint_url: "https://mint.example".to_string(),
        price_per_second: "10".to_string(),
        unit: "sat".to_string(),
    }]
}

fn client() -> PaymentClient {
    PaymentClient {
        cli_path: "cdk-cli".to_string(),
        work_dir: "/state/cdk-cli".to_string(),
        engine: "redb".to_string(),
    }
}

fn exited(success: bool, stdout: &str, stderr: &str) -> CommandOutcome {
    CommandOutcome::Exited {
        success,
        stdout: stdout.to_string(),
        stderr: stderr.to_string(),
    }
}

fn payment(amount: u64) -> ClaimedPayment {
    ClaimedPayment {
        mint_url: "https://mint.example".to_string(),
        unit: "sat".to_string(),
        amount,
    }
}

fn running(progress: ClaimProgress) -> ClaimState {
    match progress {
        ClaimProgress::Run(state) => state,
        ClaimProgress::Done(result) => panic!("claim ended: {result:?}"),
    }
}

fn ended(progress: ClaimProgress) -> Result<ClaimedPayment, PaymentError> {
    match progress {
        ClaimProgress::Run(state) => panic!("claim goes on: {state:?}"),
        ClaimProgress::Done(result) => result,
    }
}

#[test]
fn parses_decode_token_metadata() {
    let output = r#"
        TokenV4({
          "m": "https://mint.example",
          "u": "sat",
          "t": [{"p": [{"a": 10}]}]
        })
        "#;

    let metadata = parse_token_metadata(output, &prices()).unwrap();

    assert_eq!(
        metadata,
        TokenMetadata {
            mint_url: "https://mint.example".to_string(),
            unit: "sat".to_string(),
        }
    );
}

#[test]
fn parses_receive_balance_and_send_outputs() {
    assert_eq!(parse_received_amount("Received: 42\n"), Some(42));

    let balances = parse_balance_entries(
        "Recovered 0 operations, 0 compensated, 0 skipped, 0 failed\n\
         0: https://mint.example 100 sat\n\
         \n\
         Total balance across all wallets: 100 sat\n",
    );
    assert_eq!(
        balances,
        vec![BalanceEntry {
            mint_url: "https://mint.example".to_string(),
            amount: 100,
            unit: "sat".to_string(),
        }]
    );

    assert_eq!(
        parse_cashu_token("\"cashuBpGF0gaJhaUgA...\"\n"),
        Some("cashuBpGF0gaJhaUgA...".to_string())
    );
}

#[test]
fn pricing_math_covers_minimum_exact_overpay_and_cap() {
    let prices = prices();

    assert!(authorize_payment(
        ClaimedPayment {
            mint_url: "https://mint.example".to_string(),
            unit: "sat".to_string(),
            amount: 49,
        },
        &prices,
        5,
        120,
    )
    .is_err());

    let exact = authorize_payment(
        ClaimedPayment {
            mint_url: "https://mint.example".to_string(),
            unit: "sat".to_string(),
            amount: 50,
        },
        &prices,
        5,
        120,
    )
    .unwrap();
    assert_eq!(exact.prepaid_seconds, 5);
    assert_eq!(exact.timeout, Duration::from_secs(5));
    assert_eq!(settle_billing(&exact, 3, 5).cost, 50);

    let overpaid = authorize_payment(
        ClaimedPayment {
            mint_url: "https://mint.example".to_string(),
            unit: "sat".to_string(),
            amount: 2_000,
        },
        &prices,
        5,
        120,
    )
    .unwrap();
    assert_eq!(overpaid.prepaid_seconds, 200);
    assert_eq!(overpaid.timeout, Duration::from_secs(120));
    assert_eq!(
        settle_billing(&overpaid, 12, 5),
        BillingOutcome {
            duration: 12,
            billable_duration: 12,
            cost: 120,
            change_amount: 1_880,
        }
    );
}

#[test]
fn metadata_needs_one_mint_and_one_configured_unit() {
    let two = vec![
        price("https://mint.example", "10", "sat"),
        price("https://mint.example", "1", "usd"),
    ];
    assert_eq!(parse_token_metadata("https://a.example https://b.example sat", &two), None);
    assert_eq!(parse_token_metadata("https://a.example sat usd", &two), None);
    assert_eq!(parse_token_metadata("https://a.example eur", &two), None);
    assert_eq!(parse_token_metadata("sat", &two), None);
    assert_eq!(
        parse_token_metadata("mint https://a.example, unit usd; https://a.example", &two),
        Some(TokenMetadata {
            mint_url: "https://a.example".to_string(),
            unit: "usd".to_string(),
        })
    );
}

#[test]
fn urls_end_where_text_goes_on() {
    assert_eq!(
        unique_urls("(https://a.example/x.), http://b.example;\nhttps://a.example/x"),
        vec!["https://a.example/x".to_string(), "http://b.example".to_string()]
    );
    assert_eq!(unique_urls("no url here"), Vec::<String>::new());
}

#[test]
fn units_are_mentioned_quoted_or_as_words() {
    assert!(output_mentions_unit("unit: \"milli sat\"", "milli sat"));
    assert!(output_mentions_unit("unit: 'milli sat'", "milli sat"));
    assert!(output_mentions_unit("100 sat", "sat"));
    assert!(!output_mentions_unit("100 sats", "sat"));
    assert!(!output_mentions_unit("sat_v2", "sat"));
}

#[test]
fn first_number_is_the_first_run_of_digits() {
    assert_eq!(first_u64("a12b34"), Some(12));
    assert_eq!(first_u64("none"), None);
    assert_eq!(first_u64("18446744073709551615"), Some(u64::MAX));
    assert_eq!(first_u64("18446744073709551616 5"), None);
}

#[test]
fn received_amount_skips_lines_without_one() {
    assert_eq!(parse_received_amount("100 sat\nRECEIVED nothing\nreceived 7\n"), Some(7));
    assert_eq!(parse_received_amount("Received 0\nReceived 7\n"), None);
    assert_eq!(parse_received_amount("Sent 5"), None);
}

#[test]
fn balance_lines_need_all_fields() {
    let entries = parse_balance_entries(
        "  1: https://a.example 5 sat extra\r\nx: https://a.example 5 sat\n2: https://a.example many sat\n3: https://a.example 5\n4 https://a.example 5 sat",
    );
    assert_eq!(entries.len(), 1);
    assert_eq!(entries[0].amount, 5);
    assert_eq!(entries[0].unit, "sat");
}

#[test]
fn token_is_the_first_word_that_looks_like_one() {
    assert_eq!(
        parse_cashu_token("token: 'cashuAabc'; cashuBdef"),
        Some("cashuAabc".to_string())
    );
    assert_eq!(parse_cashu_token("cashuC nothing xcashuA"), None);
}

#[test]
fn units_are_sorted_and_unique() {
    let units = unique_units(&[
        price("m", "1", "usd"),
        price("n", "1", "sat"),
        price("o", "2", "usd"),
        price("p", "2", "eur"),
    ]);
    assert_eq!(units, vec!["eur".to_string(), "sat".to_string(), "usd".to_string()]);
}

#[test]
fn the_first_matching_price_counts() {
    let list = [
        price("m", "1", "sat"),
        price("m", "2", "usd"),
        price("m", "3", "usd"),
    ];
    assert_eq!(find_price(&list, "m", "usd").unwrap().price_per_second, "2");
    let error = find_price(&list, "n", "usd").unwrap_err();
    assert_eq!(error.message(), "no configured price for mint n and unit usd");
}

#[test]
fn prices_are_positive_integers() {
    assert_eq!(parse_price_per_second(&price("m", "+7", "sat")), Ok(7));
    for bad in ["", "0", "-1", "1.5", " 1", "18446744073709551616"] {
        let error = parse_price_per_second(&price("m", bad, "sat")).unwrap_err();
        assert_eq!(error, PaymentError::InvalidPrice);
        assert_eq!(
            error.message(),
            "WORKER_PRICES price_per_second must be a positive integer"
        );
    }
}

#[test]
fn authorization_tells_why_it_refuses() {
    let below = authorize_payment(payment(49), &prices(), 5, 120).unwrap_err();
    assert_eq!(
        below.message(),
        "payment below minimum: received 49 sat, required 50 sat"
    );
    let overflow = authorize_payment(payment(49), &prices(), u64::MAX, 120).unwrap_err();
    assert_eq!(overflow, PaymentError::MinimumOverflow);
    assert_eq!(overflow.message(), "minimum payment overflowed");
    let unknown = authorize_payment(payment(49), &[], 5, 120).unwrap_err();
    assert!(matches!(unknown, PaymentError::NoPrice { .. }));
    let invalid = [price("https://mint.example", "free", "sat")];
    assert_eq!(
        authorize_payment(payment(49), &invalid, 5, 120).unwrap_err(),
        PaymentError::InvalidPrice
    );
}

#[test]
fn bills_never_exceed_the_payment() {
    let paid = authorize_payment(payment(55), &prices(), 5, 120).unwrap();
    assert_eq!(
        settle_billing(&paid, u64::MAX, 5),
        BillingOutcome {
            duration: u64::MAX,
            billable_duration: u64::MAX,
            cost: 55,
            change_amount: 0,
        }
    );
    let timely = settle_billing(&paid, 5, 5);
    assert_eq!(timely.cost, 50);
    assert_eq!(timely.cost + timely.change_amount, 55);
}

#[test]
fn balance_sums_one_mint_and_unit() {
    let entry = |mint: &str, amount: u64, unit: &str| BalanceEntry {
        mint_url: mint.to_string(),
        amount,
        unit: unit.to_string(),
    };
    let before = vec![entry("m", 5, "sat"), entry("n", 9, "sat"), entry("m", 2, "sat")];
    let after = vec![entry("m", 17, "sat"), entry("m", 1, "usd")];
    assert_eq!(balance_amount(&before, "m", "sat"), Some(7));
    assert_eq!(received_delta(&before, &after, "m", "sat"), Ok(10));
    let error = received_delta(&after, &before, "m", "sat").unwrap_err();
    assert_eq!(error.message(), "balance for mint m sat did not increase");
    let huge = vec![entry("m", u64::MAX, "sat"), entry("m", 1, "sat")];
    assert_eq!(balance_amount(&huge, "m", "sat"), None);
    assert!(matches!(
        received_delta(&before, &huge, "m", "sat"),
        Err(PaymentError::BalanceOverflow { .. })
    ));
}

#[test]
fn wallet_commands_have_the_documented_form() {
    let client = client();
    let pending = client.check_pending_for_prices(&[
        price("m", "1", "usd"),
        price("n", "1", "sat"),
        price("o", "1", "sat"),
    ]);
    assert_eq!(pending.len(), 2);
    assert_eq!(
        client.argv(&pending[0]),
        vec![
            "--work-dir",
            "/state/cdk-cli",
            "--engine",
            "redb",
            "--unit",
            "sat",
            "check-pending"
        ]
    );
    assert_eq!(pending[1].unit, "usd");

    let send = client.send_change("https://mint.example", "sat", 30).unwrap();
    assert_eq!(
        send,
        WalletCommand {
            unit: "sat".to_string(),
            args: ["send", "--mint-url", "https://mint.example", "--amount", "30"]
                .iter()
                .map(|s| s.to_string())
                .collect(),
            stdin: Some("\n".to_string()),
        }
    );
    let none = client.send_change("https://mint.example", "sat", 0).unwrap_err();
    assert_eq!(none.message(), "change amount must be positive");
}

#[test]
fn change_token_is_read_from_either_output() {
    let client = client();
    let command = client.send_change("m", "sat", 3).unwrap();
    assert_eq!(
        client.change_token(&command, exited(true, "cashuAx", "cashuBy")),
        Ok("cashuAx".to_string())
    );
    assert_eq!(
        client.change_token(&command, exited(true, "done", "cashuBy")),
        Ok("cashuBy".to_string())
    );
    assert_eq!(
        client
            .change_token(&command, exited(true, "done", ""))
            .unwrap_err()
            .message(),
        "cdk-cli send did not print a Cashu token"
    );
    assert_eq!(
        client
            .change_token(&command, exited(false, "out", "err "))
            .unwrap_err()
            .message(),
        "cdk-cli send --mint-url m --amount 3 failed: err out"
    );
}

#[test]
fn command_errors_have_words() {
    let client = client();
    let command = client.send_change("m", "sat", 3).unwrap();
    let say = |outcome: CommandOutcome| client.finish_command(&command, outcome).unwrap_err();
    assert_eq!(say(CommandOutcome::NotStarted).message(), "failed to execute cdk-cli");
    assert_eq!(say(CommandOutcome::NoStdin), CommandError::NoStdin);
    assert_eq!(say(CommandOutcome::NoStdin).message(), "failed to open cdk-cli stdin");
    assert_eq!(
        say(CommandOutcome::StdinNotWritten).message(),
        "failed to write cdk-cli stdin"
    );
    assert_eq!(say(CommandOutcome::NotAwaited).message(), "failed waiting for cdk-cli");
    assert!(client.finish_command(&command, exited(true, "a", "b")).is_ok());
}

#[test]
fn claim_runs_decode_balance_and_receive() {
    let client = client();
    let prices = prices();
    let key = Some("ab12");

    let state = running(client.claim_payment("cashuAtoken", &prices));
    assert_eq!(state.stage, ClaimStage::Decode);
    assert_eq!(state.command.unit, "sat");
    assert_eq!(state.command.args, vec!["decode-token", "cashuAtoken"]);

    let decoded = exited(true, "\"m\": \"https://mint.example\", \"u\": \"sat\"", "");
    let state = running(client.resume_claim("cashuAtoken", &prices, key, state, decoded));
    assert_eq!(state.command.args, vec!["balance"]);

    let balance = exited(true, "0: https://mint.example 100 sat\n", "");
    let state = running(client.resume_claim("cashuAtoken", &prices, key, state, balance));
    assert_eq!(
        state.command.args,
        vec!["receive", "cashuAtoken", "--allow-untrusted", "--signing-key", "ab12"]
    );

    let received = exited(true, "", "Received: 42");
    let claimed = ended(client.resume_claim("cashuAtoken", &prices, key, state, received));
    assert_eq!(claimed, Ok(payment(42)));
}

#[test]
fn claim_falls_back_to_the_balance() {
    let client = client();
    let prices = prices();
    let token = "cashuAtoken";
    let start = |after: &str| {
        let state = running(client.claim_payment(token, &prices));
        let decoded = exited(true, "", "https://mint.example sat");
        let state = running(client.resume_claim(token, &prices, None, state, decoded));
        let balance = exited(true, "0: https://mint.example 100 sat\n", "");
        let state = running(client.resume_claim(token, &prices, None, state, balance));
        assert_eq!(state.command.args, vec!["receive", token, "--allow-untrusted"]);
        let received = exited(true, "ok", "");
        let state = running(client.resume_claim(token, &prices, None, state, received));
        assert!(matches!(state.stage, ClaimStage::BalanceAfter { .. }));
        ended(client.resume_claim(token, &prices, None, state, exited(true, after, "")))
    };
    assert_eq!(start("0: https://mint.example 130 sat\n"), Ok(payment(30)));
    let zero = start("0: https://mint.example 100 sat\n").unwrap_err();
    assert_eq!(zero.message(), "received payment amount was zero");
    assert!(matches!(
        start("0: https://mint.example 90 sat\n"),
        Err(PaymentError::NoIncrease { .. })
    ));
}

#[test]
fn claim_refuses_what_has_no_price() {
    let client = client();
    let token = "cashuAtoken";
    let none = ended(client.claim_payment(token, &[])).unwrap_err();
    assert_eq!(none, PaymentError::Decode(DecodeError::NoPrices));
    assert_eq!(none.message(), "failed to decode Cashu payment token");
    assert_eq!(
        DecodeError::NoPrices.message(),
        "WORKER_PRICES must include at least one price"
    );

    let prices = prices();
    let decode = |outcome: CommandOutcome| {
        let state = running(client.claim_payment(token, &prices));
        ended(client.resume_claim(token, &prices, None, state, outcome)).unwrap_err()
    };
    let other = decode(exited(true, "https://other.example sat", ""));
    assert_eq!(
        other.message(),
        "no configured price for mint https://other.example and unit sat"
    );
    let unclear = decode(exited(true, "nothing", ""));
    assert_eq!(unclear, PaymentError::Decode(DecodeError::NoMintAndUnit));
    assert_eq!(
        DecodeError::NoMintAndUnit.message(),
        "cdk-cli decode-token output did not include one mint and unit"
    );
    let failed = decode(CommandOutcome::NotStarted);
    assert!(matches!(
        failed,
        PaymentError::Decode(DecodeError::Command(CommandError::NotStarted { .. }))
    ));
}

#[test]
fn claim_reports_a_failed_receive() {
    let client = client();
    let prices = prices();
    let token = "cashuAtoken";
    let state = running(client.claim_payment(token, &prices));
    let decoded = exited(true, "https://mint.example sat", "");
    let state = running(client.resume_claim(token, &prices, None, state, decoded));
    let balance = exited(true, "", "");
    let state = running(client.resume_claim(token, &prices, None, state, balance));
    let failed = exited(false, "", "token already spent");
    let error = ended(client.resume_claim(token, &prices, None, state, failed)).unwrap_err();
    assert_eq!(
        error.message(),
        "cdk-cli receive cashuAtoken --allow-untrusted failed: token already spent"
    );
}
