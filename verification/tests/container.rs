use runner_controller::container::{
    hostname, ContainerError, ContainerManager, ContainerOutcome, NSPAWN_CONFIG_TEMPLATE,
};
use runner_controller::spawn::{SpawnAction, SpawnStage};

fn manager() -> ContainerManager {
    ContainerManager::new("/state".to_string())
}

fn strings(items: &[&str]) -> Vec<String> {
    items.iter().map(|s| s.to_string()).collect()
}

fn failed(stderr: &str) -> ContainerError {
    ContainerError::Failed {
        args: strings(&["list"]),
        stderr: stderr.to_string(),
    }
}

#[test]
fn managers_know_their_programs() {
    let own = manager();
    assert_eq!(
        own.nixos_container_bin,
        "/run/current-system/sw/bin/nixos-container"
    );
    assert_eq!(own.container_template, "/etc/nixos/ci-container-template.nix");
    let other =
        ContainerManager::with_programs("bin".to_string(), "t".to_string(), "s".to_string());
    assert_eq!(other.nixos_container_bin, "bin");
    assert_eq!(other.container_template, "t");
    assert_eq!(other.state_dir, "s");
}

#[test]
fn listings_are_filtered_by_name() {
    let output = "aa098-r0\n  AB12f-r17 \nj42\nj\nj4x\naa098-r\naa09-r1\naa0g8-r1\nother\n";
    assert_eq!(manager().list(output), strings(&["aa098-r0", "AB12f-r17"]));
    assert_eq!(
        manager().list_all(output),
        strings(&["aa098-r0", "AB12f-r17", "j42"])
    );
}

#[test]
fn host_names_come_from_the_environment_first() {
    assert_eq!(hostname(Some("a"), Some("b\n")), "a");
    assert_eq!(hostname(None, Some(" b\n")), "b");
    assert_eq!(hostname(None, None), "runner");
}

#[test]
fn names_depend_on_host_and_slot() {
    let name = ContainerManager::slot_to_container_name("test-host", 12);
    assert_eq!(name, "aa098-r12");
    assert_eq!(ContainerManager::hashed_container_name(0xaa098_f, 12), "aa098-r12");
    assert_eq!(ContainerManager::hashed_container_name(0xb, 0), "b-r0");
    assert_eq!(manager().list(&name), vec![name.clone()]);
    assert_ne!(
        ContainerManager::hash_string("test-host"),
        ContainerManager::hash_string("other-host")
    );
}

#[test]
fn free_subnets_are_the_least_that_are_unused() {
    assert_eq!(manager().get_free_subnet(&Vec::new()), 100);
    let some = strings(&["192.168.100.11\n", "192.168.101.11", "192.168.103.11", "x", "1.2"]);
    assert_eq!(manager().get_free_subnet(&some), 102);
    let all: Vec<String> = (100..=199).map(|n| format!("192.168.{n}.11")).collect();
    assert_eq!(manager().get_free_subnet(&all), 100);
    assert_eq!(manager().get_free_subnet(&strings(&["192.168.300.1"])), 100);
}

#[test]
fn command_outcomes_become_outputs_or_errors() {
    let args = strings(&["stop", "x"]);
    let run = |outcome| manager().finish_command(&args, outcome);
    assert_eq!(
        run(ContainerOutcome::NotExecuted).unwrap_err().message(),
        "Failed to execute nixos-container"
    );
    let exited = |success| ContainerOutcome::Exited {
        success,
        stdout: "out".to_string(),
        stderr: "err".to_string(),
    };
    assert_eq!(run(exited(true)), Ok("out".to_string()));
    assert_eq!(
        run(exited(false)).unwrap_err().message(),
        "nixos-container stop x failed: err"
    );
    let file = ContainerError::File {
        message: "Failed to open token file".to_string(),
    };
    assert_eq!(file.message(), "Failed to open token file");
}

#[test]
fn services_complete_when_they_failed_or_ran() {
    let done = ContainerManager::is_worker_completed;
    assert!(done(false, None, None));
    for status in ["active\n", "activating", "reloading", "unheard of"] {
        assert!(!done(true, Some(status), Some("Result=success")));
        assert!(!ContainerManager::needs_result(Some(status)));
    }
    assert!(!done(true, None, None));
    assert!(done(true, Some("failed\n"), None));
    assert!(ContainerManager::needs_result(Some("inactive\n")));
    assert!(done(true, Some("inactive\n"), Some("Result=success")));
    assert!(done(true, Some("inactive"), Some("Result=exit-code")));
    assert!(!done(true, Some("inactive"), Some("Result=")));
    assert!(!done(true, Some("inactive"), None));
}

#[test]
fn commands_are_written_for_a_container() {
    assert_eq!(
        ContainerManager::reach_args("c"),
        strings(&["run", "c", "--", "true"])
    );
    assert_eq!(
        ContainerManager::status_args("c", "s"),
        strings(&["run", "c", "--", "systemctl", "is-active", "s"])
    );
    assert_eq!(
        ContainerManager::result_args("c", "s"),
        strings(&["run", "c", "--", "systemctl", "show", "s", "--property=Result"])
    );
    assert_eq!(manager().stop("c"), strings(&["stop", "c"]));
    assert_eq!(manager().destroy("c"), strings(&["destroy", "c"]));
    assert_eq!(ContainerManager::container_service("c"), "container@c.service");
}

#[test]
fn artifacts_are_known_by_name() {
    let artifacts = manager().cleanup_artifacts("c");
    assert_eq!(artifacts.nspawn_config, "/etc/systemd/nspawn/c.nspawn");
    assert_eq!(artifacts.unix_export, "/run/systemd/nspawn/unix-export/c");
    assert_eq!(artifacts.profile_dir, "/nix/var/nix/profiles/per-container/c");
    assert_eq!(artifacts.container_root, "/var/lib/nixos-containers/c");
    assert_eq!(artifacts.interface, "ve-c");
    assert_eq!(artifacts.token_file, "/state/c.token");
}

#[test]
fn containers_are_made_in_order() {
    let manager = manager();
    let name = "aa098-r0";
    let action = |stage: &SpawnStage| manager.spawn_action(name, "secret", stage);
    let run = |args: &[&str]| SpawnAction::Run { args: strings(args) };
    let ok = |text: &str| Ok(text.to_string());

    let stage = manager.spawn_pool_container();
    assert_eq!(action(&stage), run(&["list"]));
    let stage = manager.resume_spawn(name, stage, ok("aa098-r0\naa098-r1\n"));
    assert_eq!(action(&stage), run(&["show-ip", "aa098-r0"]));
    let stage = manager.resume_spawn(name, stage, ok("192.168.100.11\n"));
    assert_eq!(action(&stage), run(&["show-ip", "aa098-r1"]));
    let stage = manager.resume_spawn(name, stage, Err(failed("no address")));
    assert_eq!(stage, SpawnStage::ListExisting { subnet: 101 });
    let stage = manager.resume_spawn(name, stage, ok("aa098-r0\n"));
    assert_eq!(action(&stage), SpawnAction::CleanContainer);
    let stage = manager.resume_spawn(name, stage, ok(""));
    assert_eq!(action(&stage), SpawnAction::CleanArtifacts);
    let stage = manager.resume_spawn(name, stage, ok(""));
    assert_eq!(
        action(&stage),
        SpawnAction::WriteSettings {
            dir: "/etc/systemd/nspawn".to_string(),
            path: "/etc/systemd/nspawn/aa098-r0.nspawn".to_string(),
            content: NSPAWN_CONFIG_TEMPLATE.to_string(),
        }
    );
    let stage = manager.resume_spawn(name, stage, ok(""));
    assert_eq!(
        action(&stage),
        SpawnAction::WriteSecret {
            path: "/state/aa098-r0.token".to_string(),
            content: "secret".to_string(),
        }
    );
    let stage = manager.resume_spawn(name, stage, ok(""));
    assert_eq!(
        action(&stage),
        run(&[
            "create",
            "aa098-r0",
            "--config-file",
            "/etc/nixos/ci-container-template.nix",
            "--local-address",
            "192.168.101.11",
            "--host-address",
            "192.168.101.10",
        ])
    );
    let stage = manager.resume_spawn(name, stage, ok(""));
    assert_eq!(
        action(&stage),
        SpawnAction::CopySecret {
            from: "/state/aa098-r0.token".to_string(),
            dir: "/var/lib/nixos-containers/aa098-r0/var/lib".to_string(),
            to: "/var/lib/nixos-containers/aa098-r0/var/lib/github-runner-token".to_string(),
        }
    );
    let stage = manager.resume_spawn(name, stage, ok(""));
    assert_eq!(action(&stage), run(&["start", "aa098-r0"]));
    let stage = manager.resume_spawn(name, stage, ok(""));
    assert_eq!(
        action(&stage),
        SpawnAction::RemoveFile {
            path: "/state/aa098-r0.token".to_string(),
        }
    );
    let stage = manager.resume_spawn(name, stage, Err(failed("kept")));
    assert_eq!(
        stage,
        SpawnStage::Done {
            result: Ok(name.to_string()),
        }
    );
    assert_eq!(action(&stage), SpawnAction::Finished);
}

#[test]
fn failed_containers_are_cleaned_up() {
    let manager = manager();
    let done = |e: ContainerError| SpawnStage::Done { result: Err(e) };

    let stage = manager.resume_spawn("n", SpawnStage::Create { subnet: 100 }, Err(failed("c")));
    assert_eq!(
        manager.spawn_action("n", "t", &stage),
        SpawnAction::UndoCreate {
            token_file: "/state/n.token".to_string(),
        }
    );
    assert_eq!(manager.resume_spawn("n", stage, Ok(String::new())), done(failed("c")));

    let stage = manager.resume_spawn("n", SpawnStage::Start, Err(failed("s")));
    assert_eq!(manager.spawn_action("n", "t", &stage), SpawnAction::CleanContainer);
    assert_eq!(manager.resume_spawn("n", stage, Ok(String::new())), done(failed("s")));

    let early = [
        SpawnStage::ListUsed,
        SpawnStage::ListExisting { subnet: 100 },
        SpawnStage::WriteSettings { subnet: 100 },
        SpawnStage::WriteToken { subnet: 100 },
        SpawnStage::InstallToken,
    ];
    for stage in early {
        assert_eq!(manager.resume_spawn("n", stage, Err(failed("e"))), done(failed("e")));
    }
}

#[test]
fn cleaning_up_stops_destroys_and_removes() {
    let cleanup = manager().cleanup_container("aa098-r2");
    assert_eq!(cleanup.service, "container@aa098-r2.service");
    assert_eq!(cleanup.stop, strings(&["stop", "aa098-r2"]));
    assert_eq!(cleanup.destroy, strings(&["destroy", "aa098-r2"]));
    assert_eq!(cleanup.artifacts, manager().cleanup_artifacts("aa098-r2"));
    assert_eq!(cleanup.artifacts.interface, "ve-aa098-r2");
    assert_eq!(cleanup.artifacts.token_file, "/state/aa098-r2.token");
    assert_eq!(
        cleanup.artifacts.nspawn_config,
        "/etc/systemd/nspawn/aa098-r2.nspawn"
    );
}
