use std::str::FromStr;
use std::time::Duration;

use nostr::prelude::{
    EventId, FromBech32, Keys, Kind, Nip19Profile, PublicKey, Signature, Tag, Timestamp,
};
use runner_controller::config::{Config, WorkerPrice, WorkerSoftware};
use runner_controller::container::{hostname, ContainerManager};
use runner_controller::event::{Event, WorkerKeys};
use runner_controller::loom::{
    build_advertisement_event, build_worker_nprofile, build_worker_publication,
    job_request_pubkeys, read_nprofile, worker_display_name, AdvertisementContent, LoomError,
    WorkerIdentity, WorkerKeyStore, WorkerRuntimeConfig, WORKER_ADVERTISEMENT_KIND,
};
use serde_json::Value;

fn verifies(e: &Event) -> bool {
    nostr::Event::new(
        EventId::from_hex(&e.id).unwrap(),
        PublicKey::from_hex(&e.pubkey).unwrap(),
        Timestamp::from_secs(e.created_at),
        Kind::from(e.kind),
        e.tags.iter().map(|tag| Tag::parse(tag).unwrap()),
        e.content.as_str(),
        Signature::from_str(&e.sig).unwrap(),
    )
    .verify()
    .is_ok()
}

fn test_config() -> Config {
    Config {
        relays: vec!["wss://relay.example".to_string()],
        worker_software: vec![WorkerSoftware {
            name: "nix".to_string(),
            version: "2.24".to_string(),
            path: "/run/current-system/sw/bin/nix".to_string(),
        }],
        worker_prices: vec![WorkerPrice {
            mint_url: "https://mint.example".to_string(),
            price_per_second: "10".to_string(),
            unit: "sat".to_string(),
        }],
        worker_name: "worker".to_string(),
        worker_description: "test worker".to_string(),
        worker_architecture: "x86_64".to_string(),
        worker_default_shell: "/bin/bash".to_string(),
        worker_geohash: Some("u09tun".to_string()),
        worker_min_duration: 5,
        worker_max_duration: 120,
        worker_max_concurrent_jobs: 1,
        advertise_interval: Duration::from_secs(300),
        worker_service_name: "hive-worker.service".to_string(),
        blossom_servers: Vec::new(),
        cashu_mints: Vec::new(),
        max_concurrent_jobs: 1,
        poll_interval: Duration::from_secs(10),
        job_timeout: Duration::from_secs(7200),
        worker_http_port: 8081,
        worker_act_path: "/bin/act".to_string(),
        worker_ngit_path: "/usr/local/bin/ngit".to_string(),
        worker_git_remote_nostr_path: "/usr/local/bin/git-remote-nostr".to_string(),
        worker_work_dir: "/tmp/work".to_string(),
        state_dir: "/tmp/runner-controller-test".to_string(),
        cdk_cli_path: "cdk-cli".to_string(),
        cdk_work_dir: "/tmp/runner-controller-test/cdk-cli".to_string(),
        cdk_engine: "redb".to_string(),
        nixos_container_bin: "nixos-container".to_string(),
        http_addr: "127.0.0.1".to_string(),
        http_port: 8080,
    }
}

fn identity(keys: &Keys, pubkey: &str) -> WorkerIdentity {
    WorkerIdentity {
        slot: 0,
        keys: WorkerKeys {
            secret_key: keys.secret_key().to_secret_hex(),
            public_key: keys.public_key().to_hex(),
        },
        pubkey: pubkey.to_string(),
    }
}

#[test]
fn persists_slot_key_and_derives_stable_pubkey() {
    let store = WorkerKeyStore::new("/state");
    assert_eq!(store.key_path(0), "/state/keys/slot-0.nsec");

    let first = store.load_or_create(0, None).unwrap();
    let stored = first.to_store.unwrap();
    assert!(stored.starts_with("nsec1"));
    let second = store
        .load_or_create(0, Some(&format!(" {stored}\n")))
        .unwrap();

    assert_eq!(second.to_store, None);
    assert_eq!(first.identity.pubkey, second.identity.pubkey);
    assert_eq!(first.identity, second.identity);
}

#[test]
fn builds_worker_advertisement_event() {
    let config = test_config();
    let identity = identity(&Keys::generate(), "unused");

    let event = build_advertisement_event(&config, &identity, "abcde-r0").unwrap();
    assert!(verifies(&event));
    let kind: u16 = event.kind;
    let tags: Vec<Vec<String>> = event.tags;
    let content: Value = serde_json::from_str(&event.content).unwrap();

    assert_eq!(kind, WORKER_ADVERTISEMENT_KIND);
    assert_eq!(content["name"], Value::from("worker abcde-r0"));
    assert!(tags.contains(&vec![
        "S".to_string(),
        "nix".to_string(),
        "2.24".to_string(),
        "/run/current-system/sw/bin/nix".to_string(),
    ]));
    assert!(tags.contains(&vec!["A".to_string(), "x86_64".to_string()]));
    assert!(tags.contains(&vec![
        "price".to_string(),
        "https://mint.example".to_string(),
        "10".to_string(),
        "sat".to_string(),
    ]));
    assert!(tags.contains(&vec!["metric".to_string(), "second".to_string()]));
    assert!(tags.contains(&vec!["min_duration".to_string(), "5".to_string()]));
    assert!(tags.contains(&vec!["max_duration".to_string(), "120".to_string()]));
    assert!(tags.contains(&vec!["default_shell".to_string(), "/bin/bash".to_string()]));
    assert!(tags.contains(&vec!["g".to_string(), "u09tun".to_string()]));
    assert!(tags.contains(&vec![
        "relay".to_string(),
        "wss://relay.example".to_string()
    ]));
}

#[test]
fn builds_worker_nprofile_with_relay_hints() {
    let config = test_config();
    let keys = Keys::generate();
    let identity = identity(&keys, &keys.public_key().to_hex());

    let nprofile = build_worker_nprofile(&config.relays, &identity).unwrap();
    let decoded = Nip19Profile::from_bech32(&nprofile).unwrap();

    assert!(nprofile.starts_with("nprofile1"));
    assert_eq!(decoded.public_key.to_hex(), identity.keys.public_key);
    assert_eq!(decoded.relays.len(), 1);
    assert_eq!(decoded.relays[0].as_str(), "wss://relay.example");
}

#[test]
fn worker_runtime_config_does_not_contain_nsec() {
    let config = test_config();
    let runtime_config = WorkerRuntimeConfig::from_config(&config);
    let json = runtime_config.to_json();

    assert!(!json.contains("nsec"));
    assert!(json.contains("\"act_path\":\"/bin/act\""));
    assert!(json.contains("\"ngit_path\":\"/usr/local/bin/ngit\""));
    assert!(json.contains("\"git_remote_nostr_path\":\"/usr/local/bin/git-remote-nostr\""));
    assert!(json.contains("\"http_port\":8081"));
}

#[test]
fn container_names_remain_stable() {
    let host = hostname(Some("test-host"), None);
    assert_eq!(ContainerManager::slot_to_container_name(&host, 0), "aa098-r0");
}

#[test]
fn runtime_config_is_json() {
    let mut config = test_config();
    config.blossom_servers = vec!["https://b.example".to_string()];
    let json = WorkerRuntimeConfig::from_config(&config).to_json();
    let value: Value = serde_json::from_str(&json).unwrap();
    assert_eq!(value["relays"][0], Value::from("wss://relay.example"));
    assert_eq!(value["software"][0]["version"], Value::from("2.24"));
    assert_eq!(value["prices"][0]["price_per_second"], Value::from("10"));
    assert_eq!(value["min_duration"], Value::from(5));
    assert_eq!(value["timeout_seconds"], Value::from(7200));
    assert_eq!(value["blossom_servers"][0], Value::from("https://b.example"));
    assert_eq!(value["cashu_mints"], Value::from(Vec::<Value>::new()));
    assert_eq!(value.as_object().unwrap().len(), 14);
}

#[test]
fn advertisements_without_a_place_have_no_place_tag() {
    let mut config = test_config();
    config.worker_geohash = None;
    let identity = identity(&Keys::generate(), "unused");
    let event = build_advertisement_event(&config, &identity, "n").unwrap();
    assert!(!event.tags.iter().any(|t| t[0] == "g"));
    assert_eq!(event.tags.len(), 8);
    let content = AdvertisementContent {
        name: worker_display_name(&config, "n"),
        description: "test worker".to_string(),
        max_concurrent_jobs: 1,
        current_queue_depth: 0,
    };
    assert_eq!(event.content, content.to_json());
    assert_eq!(
        event.content,
        r#"{"name":"worker n","description":"test worker","max_concurrent_jobs":1,"current_queue_depth":0}"#
    );
}

#[test]
fn publication_holds_profile_and_advertisement() {
    let config = test_config();
    let keys = Keys::generate();
    let worker = identity(&keys, &keys.public_key().to_hex());
    let publication = build_worker_publication(&config, &config.relays, &worker, "n").unwrap();
    assert_eq!(publication.metadata.kind, 0);
    assert_eq!(publication.metadata.pubkey, worker.pubkey);
    let profile: Value = serde_json::from_str(&publication.metadata.content).unwrap();
    assert_eq!(profile["name"], Value::from("worker n"));
    assert_eq!(profile["display_name"], Value::from("worker n"));
    assert_eq!(profile["about"], Value::from("test worker"));
    assert_eq!(
        publication.metadata.content,
        r#"{"name":"worker n","display_name":"worker n","about":"test worker"}"#
    );
    assert!(verifies(&publication.metadata));
    assert_eq!(publication.advertisement.kind, 10100);
    assert_eq!(publication.advertisement.pubkey, worker.pubkey);
    assert!(verifies(&publication.advertisement));

    let relays = vec!["wss://ok.example".to_string(), "https://no.example".to_string()];
    let error = build_worker_publication(&config, &relays, &worker, "n").unwrap_err();
    assert_eq!(
        error.message(),
        "Invalid relay URL for worker nprofile: https://no.example"
    );

    let mut broken = identity(&keys, "x");
    broken.keys.secret_key = String::new();
    let error = build_worker_publication(&config, &config.relays, &broken, "n").unwrap_err();
    assert_eq!(error, LoomError::SignMetadata);
    assert_eq!(error.message(), "Failed to sign worker profile metadata");
    let error = build_advertisement_event(&config, &broken, "n").unwrap_err();
    assert_eq!(error.message(), "Failed to sign worker advertisement");
    broken.keys.public_key = "no key".to_string();
    let error = build_worker_nprofile(&config.relays, &broken).unwrap_err();
    assert_eq!(error.message(), "Failed to encode worker nprofile");
}

#[test]
fn stored_keys_that_are_none_are_refused() {
    let store = WorkerKeyStore::new("/state/");
    assert_eq!(store.key_dir, "/state/keys");
    let error = store.load_or_create(4, Some("garbage")).unwrap_err();
    assert_eq!(error.message(), "Failed to parse worker key for slot 4");
}

#[test]
fn subscription_asks_for_every_worker() {
    let keys = Keys::generate();
    let upper = keys.public_key().to_hex().to_uppercase();
    let workers = vec![identity(&keys, &upper)];
    assert_eq!(job_request_pubkeys(&workers), Ok(vec![keys.public_key().to_hex()]));
    let mut bad = identity(&keys, "abc");
    bad.slot = 7;
    let error = job_request_pubkeys(&vec![bad]).unwrap_err();
    assert_eq!(error.message(), "Invalid worker pubkey for slot 7");
}

#[test]
fn all_slots_get_a_worker_that_they_keep() {
    let store = WorkerKeyStore::new("/state");
    let new = store.load_or_create_all(&vec![None, None, None]);
    assert_eq!(new.error, None);
    let workers = new.workers();
    assert_eq!(workers.len(), 3);
    for (slot, worker) in workers.iter().enumerate() {
        assert_eq!(worker.slot, slot);
        assert_eq!(worker.pubkey, worker.keys.public_key);
    }
    assert_ne!(workers[0].pubkey, workers[1].pubkey);

    let mut stored: Vec<Option<String>> = new.loaded.iter().map(|l| l.to_store.clone()).collect();
    let again = store.load_or_create_all(&stored);
    assert_eq!(again.workers(), workers);
    assert!(again.loaded.iter().all(|l| l.to_store.is_none()));

    stored[1] = Some("garbage".to_string());
    let broken = store.load_or_create_all(&stored);
    assert_eq!(broken.workers(), workers[..1].to_vec());
    assert_eq!(
        broken.error.unwrap().message(),
        "Failed to parse worker key for slot 1"
    );
}

fn relay_of(length: usize) -> String {
    let start = "wss://relay.example/";
    format!("{start}{}", "a".repeat(length - start.len()))
}

#[test]
fn profile_references_read_back() {
    let keys = Keys::generate();
    let worker = identity(&keys, &keys.public_key().to_hex());
    let relays = vec![relay_of(255), relay_of(255), relay_of(80)];
    let nprofile = build_worker_nprofile(&relays, &worker).unwrap();
    let profile = read_nprofile(&nprofile).unwrap();
    assert_eq!(profile.public_key, worker.pubkey);
    assert_eq!(profile.relays, relays);

    let too_long = vec![relay_of(255), relay_of(255), relay_of(81)];
    let error = build_worker_nprofile(&too_long, &worker).unwrap_err();
    assert_eq!(error, LoomError::EncodeProfile);
    assert_eq!(read_nprofile("nprofile1"), None);
}

#[test]
fn relays_are_read_as_they_are_written() {
    let keys = Keys::generate();
    let worker = identity(&keys, &keys.public_key().to_hex());
    let relays = vec![
        "WSS://Relay.Example".to_string(),
        "wss:\\\\relay.example/a://b".to_string(),
        "ws://two.example/".to_string(),
    ];
    let nprofile = build_worker_nprofile(&relays, &worker).unwrap();
    let profile = read_nprofile(&nprofile).unwrap();
    assert_eq!(
        profile.relays,
        vec![
            "wss://relay.example".to_string(),
            "ws://two.example/".to_string()
        ]
    );
}

#[test]
fn loaded_keys_are_raw_hexadecimal() {
    let store = WorkerKeyStore::new("/state");
    let worker = store.load_or_create(0, None).unwrap().identity;
    for key in [&worker.keys.secret_key, &worker.keys.public_key] {
        assert_eq!(key.len(), 64);
        assert!(key.chars().all(|c| matches!(c, '0'..='9' | 'a'..='f')));
    }
}

#[test]
fn texts_are_escaped_in_json() {
    let mut config = test_config();
    config.worker_name = "\u{0}\u{1f}\u{7f}".to_string();
    config.worker_description = "\" \\ / \u{8}\t\n\u{b}\u{c}\r \u{e9}\u{1f980}".to_string();
    let keys = Keys::generate();
    let worker = identity(&keys, &keys.public_key().to_hex());
    let publication = build_worker_publication(&config, &config.relays, &worker, "n").unwrap();
    let name = "\"\\u0000\\u001f\u{7f} n\"";
    let about = "\"\\\" \\\\ / \\b\\t\\n\\u000b\\f\\r \u{e9}\u{1f980}\"";
    assert_eq!(
        publication.metadata.content,
        format!("{{\"name\":{name},\"display_name\":{name},\"about\":{about}}}")
    );
    assert!(publication
        .advertisement
        .content
        .starts_with(&format!("{{\"name\":{name},\"description\":{about},")));
}
