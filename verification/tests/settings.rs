use std::str::FromStr;
use std::time::Duration;

use nostr::prelude::{EventId, Keys, Kind, PublicKey, Signature, Tag, Timestamp};
use runner_controller::config::{container_template, Config, GitHubConfig};
use runner_controller::event::{Event, WorkerKeys};
use runner_controller::github::client::{
    is_rate_limit_low, next_step, Attempt, GitHubClient, GitHubError, Method, RequestStep,
    Response,
};
use runner_controller::github::types::{Runner, RunnersResponse};
use runner_controller::jobs::{extract_payment_token, open_job_event};
use runner_controller::loom::WorkerIdentity;
use runner_controller::number::{decimal_text, hex_text, parse_u16, parse_u8, signed_decimal_text};
use runner_controller::paths::join_path;
use runner_controller::payments::PaymentClient;
use runner_controller::post_job::{build_job_posting, PostError};
use runner_controller::search::{find_text, has_text, is_less, starts_with, to_ascii_lowercase};
use runner_controller::text::{join, split_csv, split_lines, split_whitespace, trim};
use serde_json::Value;

fn verifies(e: &Event) -> bool {
    nostr::Event::new(
        EventId::from_hex(&e.id).unwrap(),
        PublicKey::from_hex(&e.pubkey).unwrap(),
        Timestamp::from_secs(e.created_at),
        Kind::from(e.kind),
        e.tags.iter().map(|tag| Tag::parse(tag).unwrap()),
        e.content.as_str(),
        Signature::from_str(&e.sig).unwrap(),
    )
    .verify()
    .is_ok()
}

fn env(pairs: &[(&str, &str)]) -> Vec<(String, String)> {
    pairs
        .iter()
        .map(|(name, value)| (name.to_string(), value.to_string()))
        .collect()
}

const REQUIRED: [(&str, &str); 3] = [
    ("NOSTR_RELAYS", "wss://relay.example, ,wss://two.example"),
    ("WORKER_SOFTWARE", "nix:2.24:/run/current-system/sw/bin/nix"),
    ("WORKER_PRICES", "https://mint.example:10:sat,https://m.example:8080:3:usd"),
];

fn with(extra: &[(&str, &str)]) -> Vec<(String, String)> {
    let mut all = env(&REQUIRED);
    all.extend(env(extra));
    all
}

fn refused(env: &Vec<(String, String)>) -> String {
    Config::from_env(env).unwrap_err().message()
}

fn strings(items: &[&str]) -> Vec<String> {
    items.iter().map(|s| s.to_string()).collect()
}

#[test]
fn required_variables_make_a_configuration() {
    let config = Config::from_env(&env(&REQUIRED)).unwrap();
    assert_eq!(config.relays, strings(&["wss://relay.example", "wss://two.example"]));
    assert_eq!(config.worker_software[0].name, "nix");
    assert_eq!(config.worker_software[0].version, "2.24");
    assert_eq!(config.worker_software[0].path, "/run/current-system/sw/bin/nix");
    assert_eq!(config.worker_prices[0].mint_url, "https://mint.example");
    assert_eq!(config.worker_prices[0].price_per_second, "10");
    assert_eq!(config.worker_prices[1].mint_url, "https://m.example:8080");
    assert_eq!(config.worker_prices[1].unit, "usd");
    assert_eq!(config.max_concurrent_jobs, 7);
    assert_eq!(config.poll_interval, Duration::from_secs(10));
    assert_eq!(config.job_timeout, Duration::from_secs(7200));
    assert_eq!(config.advertise_interval, Duration::from_secs(300));
    assert_eq!(config.worker_min_duration, 5);
    assert_eq!(config.worker_max_duration, 120);
    assert_eq!(config.worker_name, "loom-worker");
    assert_eq!(config.worker_default_shell, "/bin/bash");
    assert_eq!(config.worker_work_dir, "/var/lib/loom-worker/work");
    assert_eq!(config.state_dir, "/var/lib/runner-controller");
    assert_eq!(config.cdk_cli_path, "cdk-cli");
    assert_eq!(config.cdk_work_dir, "/var/lib/runner-controller/cdk-cli");
    assert_eq!(config.cdk_engine, "redb");
    assert_eq!(config.nixos_container_bin, "nixos-container");
    assert_eq!(config.http_addr, "127.0.0.1");
    assert_eq!(config.http_port, 8080);
    assert_eq!(config.worker_geohash, None);
    assert_eq!(
        container_template(&env(&REQUIRED)),
        "/etc/nixos/ci-container-template.nix"
    );
    let client = PaymentClient::new(&config);
    assert_eq!(client.cli_path, "cdk-cli");
    assert_eq!(client.work_dir, "/var/lib/runner-controller/cdk-cli");
    assert_eq!(client.engine, "redb");
}

#[test]
fn settings_replace_defaults() {
    let config = Config::from_env(&with(&[
        ("STATE_DIR", "/s/"),
        ("MAX_CONCURRENT", "2"),
        ("MAX_CONCURRENT", "9"),
        ("HTTP_PORT", "65535"),
        ("WORKER_GEOHASH", "u09tun"),
        ("CASHU_MINTS", "a,b"),
    ]))
    .unwrap();
    assert_eq!(config.cdk_work_dir, "/s/cdk-cli");
    assert_eq!(config.max_concurrent_jobs, 2);
    assert_eq!(config.http_port, 65535);
    assert_eq!(config.worker_geohash, Some("u09tun".to_string()));
    assert_eq!(config.cashu_mints, strings(&["a", "b"]));
    assert_eq!(container_template(&env(&[("CONTAINER_TEMPLATE", "/t.nix")])), "/t.nix");
}

#[test]
fn settings_that_are_wrong_are_named() {
    assert_eq!(refused(&env(&[])), "NOSTR_RELAYS environment variable is required");
    assert_eq!(
        refused(&env(&REQUIRED[..1])),
        "WORKER_SOFTWARE environment variable is required"
    );
    assert_eq!(
        refused(&env(&REQUIRED[..2])),
        "WORKER_PRICES environment variable is required"
    );
    assert_eq!(
        refused(&with(&[("POLL_INTERVAL", "soon")])),
        "POLL_INTERVAL must be a valid number"
    );
    assert_eq!(
        refused(&with(&[("HTTP_PORT", "65536")])),
        "HTTP_PORT must be a valid port number"
    );
    let mut software = env(&REQUIRED);
    software[1].1 = "nix:2.24".to_string();
    assert_eq!(
        refused(&software),
        "WORKER_SOFTWARE entries must have the form name:version:path"
    );
    let mut prices = env(&REQUIRED);
    prices[2].1 = "10:sat".to_string();
    assert_eq!(
        refused(&prices),
        "WORKER_PRICES entries must have the form mint_url:price_per_second:unit"
    );
    for price in ["0", "-1", "ten", "18446744073709551616"] {
        prices[2].1 = format!("https://mint.example:10:sat,https://mint.example:{price}:usd");
        assert_eq!(
            refused(&prices),
            "WORKER_PRICES price_per_second must be a positive integer"
        );
    }
}

#[test]
fn github_settings_are_read() {
    let set = env(&[("GITHUB_REPO", "o/r"), ("GITHUB_TOKEN_FILE", "/token")]);
    let config = GitHubConfig::from_env(&set, Some(" abc\n")).unwrap();
    assert_eq!(config.github_repo, "o/r");
    assert_eq!(config.github_token, "abc");
    assert_eq!(config.runner_startup_timeout, Duration::from_secs(600));
    assert_eq!(
        config.runner_labels,
        strings(&["self-hosted", "ci", "nix", "x64", "Linux"])
    );
    let say = |set: &Vec<(String, String)>, token: Option<&str>| {
        GitHubConfig::from_env(set, token).unwrap_err().message()
    };
    assert_eq!(say(&env(&[]), None), "GITHUB_REPO environment variable is required");
    assert_eq!(
        say(&env(&[("GITHUB_REPO", "o/r")]), None),
        "GITHUB_TOKEN_FILE environment variable is required"
    );
    assert_eq!(say(&set, None), "Failed to read GitHub token from /token");
    let mut late = set;
    late.extend(env(&[("RUNNER_STARTUP_TIMEOUT", "x")]));
    assert_eq!(say(&late, Some("t")), "RUNNER_STARTUP_TIMEOUT must be a valid number");
}

#[test]
fn requests_are_sent_three_times() {
    let attempt = Attempt::first();
    let first = next_step(Method::Get, "/e", attempt, Response::NotSent);
    let RequestStep::Retry { wait_ms: 1000, attempt } = first else {
        panic!("{first:?}")
    };
    let second = next_step(Method::Get, "/e", attempt, Response::Status(500));
    let RequestStep::Retry { wait_ms: 2000, attempt } = second else {
        panic!("{second:?}")
    };
    assert_eq!(attempt.number, 3);
    let third = next_step(Method::Get, "/e", attempt, Response::Status(429));
    let RequestStep::GiveUp { wait_ms: 4000, error } = third else {
        panic!("{third:?}")
    };
    assert_eq!(error.message(), "GitHub API request failed after 3 retries: /e");
    let say = |method| GitHubError::Exhausted { method, endpoint: "/e".to_string() }.message();
    assert_eq!(say(Method::Post), "GitHub API POST failed after 3 retries: /e");
    assert_eq!(say(Method::Delete), "GitHub API DELETE failed after 3 retries: /e");
    assert_eq!(GitHubError::InvalidJson.message(), "Failed to parse JSON response");
}

#[test]
fn some_answers_are_final() {
    let step = |method, code| next_step(method, "/e", Attempt::first(), Response::Status(code));
    let accepted = [
        (Method::Get, 200),
        (Method::Post, 200),
        (Method::Post, 201),
        (Method::Delete, 204),
        (Method::Delete, 200),
        (Method::Delete, 404),
    ];
    for (method, code) in accepted {
        assert_eq!(step(method, code), RequestStep::Accept);
    }
    for method in [Method::Get, Method::Post, Method::Delete] {
        let RequestStep::Fail { error } = step(method, 401) else {
            panic!("401 is final")
        };
        assert_eq!(error.message(), "GitHub API unauthorized - check token");
        assert!(matches!(step(method, 403), RequestStep::Retry { .. }));
    }
    let RequestStep::Fail { error } = step(Method::Get, 404) else {
        panic!("404 is final")
    };
    assert_eq!(error.message(), "GitHub API resource not found: /e");
    assert!(matches!(step(Method::Post, 404), RequestStep::Retry { .. }));
    assert!(matches!(step(Method::Get, 201), RequestStep::Retry { .. }));
}

#[test]
fn runners_are_found_by_name() {
    let client = GitHubClient::new("o/r".to_string(), "t".to_string());
    assert_eq!(client.authorization(), "token t");
    assert_eq!(GitHubClient::url("/x"), "https://api.github.com/x");
    assert_eq!(
        client.get_registration_token(),
        "/repos/o/r/actions/runners/registration-token"
    );
    assert_eq!(
        client.list_runners(2),
        "/repos/o/r/actions/runners?per_page=100&page=2"
    );
    assert_eq!(client.delete_runner(7), "/repos/o/r/actions/runners/7");
    let runner = |id: u64, name: &str| Runner {
        id,
        name: name.to_string(),
        status: "online".to_string(),
        busy: false,
    };
    let mut runners = Vec::new();
    let full = RunnersResponse {
        runners: (0..100).map(|id| runner(id, "x")).collect(),
    };
    assert!(GitHubClient::add_page(&mut runners, full));
    let last = RunnersResponse {
        runners: vec![runner(200, "y"), runner(201, "y")],
    };
    assert!(!GitHubClient::add_page(&mut runners, last));
    assert_eq!(runners.len(), 102);
    assert_eq!(GitHubClient::find_runner_by_name(&runners, "y"), Some(200));
    assert_eq!(
        client.delete_runner_by_name(&runners, "y"),
        Some("/repos/o/r/actions/runners/200".to_string())
    );
    assert_eq!(client.delete_runner_by_name(&runners, "z"), None);
    assert!(is_rate_limit_low("99"));
    assert!(!is_rate_limit_low("100"));
    assert!(!is_rate_limit_low("many"));
}

#[test]
fn posted_jobs_reach_their_worker() {
    let worker = Keys::generate();
    let requester = Keys::generate();
    let hex = worker.public_key().to_hex().to_uppercase();
    let nsec = requester.secret_key().to_secret_hex();
    let set = [
        ("NOSTR_RELAYS", "wss://relay.example"),
        ("REQUESTER_NSEC", nsec.as_str()),
        ("WORKER_PUBKEY", hex.as_str()),
        ("PAYMENT_TOKEN", "cashuAtoken"),
        ("JOB_REPO", "nostr://_@example.com/repo"),
        ("JOB_WORKFLOW", ".github/workflows/ci.yml"),
        ("JOB_NAME", "test"),
        ("JOB_EVENT_PAYLOAD", " {\"after\" : \"abc\"} "),
    ];
    let posting = build_job_posting(&env(&set)).unwrap();
    assert_eq!(posting.relays, strings(&["wss://relay.example"]));
    assert_eq!(posting.event.kind, 5100);
    assert_eq!(posting.event.pubkey, requester.public_key().to_hex());
    assert!(verifies(&posting.event));
    assert_eq!(
        posting.event.tags,
        vec![
            strings(&["p", &worker.public_key().to_hex()]),
            strings(&["payment", "cashuAtoken"]),
        ]
    );
    let identity = WorkerIdentity {
        slot: 0,
        pubkey: worker.public_key().to_hex(),
        keys: WorkerKeys {
            secret_key: worker.secret_key().to_secret_hex(),
            public_key: worker.public_key().to_hex(),
        },
    };
    let opened = open_job_event(&identity, &posting.event).unwrap();
    let job: Value = serde_json::from_str(&opened).unwrap();
    assert_eq!(job["repo"], Value::from("nostr://_@example.com/repo"));
    assert_eq!(job["ref"], Value::from("main"));
    assert_eq!(job["event"], Value::from("push"));
    assert_eq!(job["event_payload"]["after"], Value::from("abc"));
    assert_eq!(extract_payment_token(&posting.event).unwrap(), "cashuAtoken");

    for missing in 0..7 {
        let mut less = env(&set);
        let (name, _) = less.remove(missing);
        let error = build_job_posting(&less).unwrap_err();
        assert_eq!(error.message(), format!("{name} is required"));
    }
    let broken = |name: &str, value: &str| {
        let mut other = env(&[(name, value)]);
        other.extend(env(&set));
        build_job_posting(&other).unwrap_err()
    };
    assert_eq!(
        broken("REQUESTER_NSEC", "x").message(),
        "REQUESTER_NSEC must be a valid nsec or hex secret key"
    );
    assert_eq!(
        broken("WORKER_PUBKEY", "x").message(),
        "WORKER_PUBKEY must be a hex public key"
    );
    assert_eq!(
        broken("JOB_EVENT_PAYLOAD", "{").message(),
        "JOB_EVENT_PAYLOAD must be valid JSON"
    );
    let long = "x".repeat(70_000);
    assert_eq!(broken("JOB_NAME", &long), PostError::Encrypt);
    assert_eq!(
        PostError::Encrypt.message(),
        "failed to encrypt job request content"
    );
    let mut plain = env(&set);
    plain.pop();
    let opened = open_job_event(&identity, &build_job_posting(&plain).unwrap().event).unwrap();
    assert!(opened.contains("\"event_payload\":{}"));
}

#[test]
fn longest_text_is_encrypted() {
    let worker = Keys::generate();
    let hex = worker.public_key().to_hex();
    let nsec = Keys::generate().secret_key().to_secret_hex();
    let around = "{\"event\":\"push\",\"event_payload\":{},\"job\":\"\",\"ref\":\"main\",\"repo\":\"r\",\"workflow\":\"w\"}";
    let post = |length: usize| {
        let name = "x".repeat(length - around.len());
        build_job_posting(&env(&[
            ("NOSTR_RELAYS", "wss://relay.example"),
            ("REQUESTER_NSEC", nsec.as_str()),
            ("WORKER_PUBKEY", hex.as_str()),
            ("PAYMENT_TOKEN", "t"),
            ("JOB_REPO", "r"),
            ("JOB_WORKFLOW", "w"),
            ("JOB_NAME", name.as_str()),
        ]))
    };
    assert!(post(65_408).is_ok());
    assert!(matches!(post(65_409), Err(PostError::Encrypt)));
}

#[test]
fn text_is_trimmed_and_split() {
    assert_eq!(trim("\u{3000} a b\u{a0}\n"), "a b");
    assert_eq!(split_csv(" a ,, b,"), strings(&["a", "b"]));
    assert_eq!(split_lines("a\r\nb\n\nc\r"), strings(&["a", "b", "", "c\r"]));
    assert_eq!(split_whitespace(" a\t b\n"), strings(&["a", "b"]));
    assert_eq!(join(&strings(&["a", "b"]), " "), "a b");
    assert_eq!(join_path("/a", "b"), "/a/b");
    assert_eq!(join_path("/a/", "b"), "/a/b");
    assert_eq!(join_path("", "b"), "b");
}

#[test]
fn text_is_searched_and_ordered() {
    assert_eq!(find_text("aXbXX", "XX"), Some(3));
    assert_eq!(find_text("abc", ""), Some(0));
    assert!(!has_text("ab", "abc"));
    assert!(starts_with("nostr://x", "nostr://"));
    assert_eq!(to_ascii_lowercase("ReCeived \u{c9}"), "received \u{c9}");
    for (a, b) in [("", "a"), ("a", "b"), ("a", "aa"), ("Z", "a"), ("a", "\u{e9}")] {
        assert!(is_less(a, b));
        assert!(!is_less(b, a));
        assert!(a < b);
    }
}

#[test]
fn numbers_are_written_and_read() {
    for n in [0, 9, 10, 4_294_967_296, u64::MAX] {
        assert_eq!(decimal_text(n), format!("{n}"));
        assert_eq!(hex_text(n), format!("{n:x}"));
    }
    for n in [i32::MIN, -1, 0, i32::MAX] {
        assert_eq!(signed_decimal_text(n), format!("{n}"));
    }
    for s in ["", "+", "+7", "0255", "255", "256", "-1", "7 ", "65535", "65536"] {
        assert_eq!(parse_u8(s), s.parse::<u8>().ok());
        assert_eq!(parse_u16(s), s.parse::<u16>().ok());
    }
}
