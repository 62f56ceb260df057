//! Making the container of a slot, step by step.
//!
//! Each step says what has to be done, takes the reply, and goes on. A container that cannot be
//! created or started is cleaned up before the failure is reported.

use vstd::prelude::*;

use crate::container;
use crate::container::{ContainerError, ContainerManager, NSPAWN_CONFIG_TEMPLATE};
use crate::number;
use crate::number::decimal_text;
use crate::paths;
use crate::paths::join_path;
use crate::search::list_contains;

verus! {

/// How far the making of a container has come.
#[derive(Debug, PartialEq, Eq)]
pub enum SpawnStage {
    /// The containers are being listed whose networks are in use.
    ListUsed,
    /// The address of one of those containers is being asked for.
    ShowAddress { containers: Vec<String>, next: usize, ips: Vec<String> },
    /// The containers are being listed once more, to see whether the name is taken.
    ListExisting { subnet: u8 },
    /// A container of the same name is being cleaned up.
    CleanExisting { subnet: u8 },
    /// Leftovers of a container of the same name are being removed.
    CleanArtifacts { subnet: u8 },
    /// The settings of the container are being written.
    WriteSettings { subnet: u8 },
    /// The token is being written to the state directory.
    WriteToken { subnet: u8 },
    /// The container is being created.
    Create { subnet: u8 },
    /// What was made of a container that could not be created is being removed.
    UndoCreate { error: ContainerError },
    /// The token is being copied into the container.
    InstallToken,
    /// The container is being started.
    Start,
    /// A container that could not be started is being cleaned up.
    UndoStart { error: ContainerError },
    /// The token is being removed from the state directory.
    RemoveToken,
    /// The container runs, or could not be made.
    Done { result: Result<String, ContainerError> },
}

/// What has to be done next.
#[derive(Debug, PartialEq, Eq)]
pub enum SpawnAction {
    /// Run the container program.
    Run { args: Vec<String> },
    /// Stop and destroy the container and remove its artifacts.
    CleanContainer,
    /// Remove the artifacts of the container.
    CleanArtifacts,
    /// Make the directory and write the file in it.
    WriteSettings { dir: String, path: String, content: String },
    /// Write a file that only its owner may read.
    WriteSecret { path: String, content: String },
    /// Remove the artifacts of the container, and the file.
    UndoCreate { token_file: String },
    /// Make the directory and copy the file into it.
    CopySecret { from: String, dir: String, to: String },
    /// Remove the file.
    RemoveFile { path: String },
    /// Nothing.
    Finished,
}

/// The arguments that create a container.
pub open spec fn create_args(
    name: Seq<char>,
    template: Seq<char>,
    subnet: nat,
) -> Seq<Seq<char>> {
    seq![
        "create"@,
        name,
        "--config-file"@,
        template,
        "--local-address"@,
        "192.168."@ + number::decimal(subnet) + ".11"@,
        "--host-address"@,
        "192.168."@ + number::decimal(subnet) + ".10"@,
    ]
}

/// Whether `action` is what has to be done at a stage.
pub open spec fn is_spawn_action(
    manager: ContainerManager,
    name: Seq<char>,
    token: Seq<char>,
    stage: SpawnStage,
    action: SpawnAction,
) -> bool {
    let root = "/var/lib/nixos-containers/"@ + name;
    match stage {
        SpawnStage::ListUsed => action matches SpawnAction::Run { args } && args.deep_view()
            == seq!["list"@],
        SpawnStage::ShowAddress { containers, next, .. } => {
            &&& action matches SpawnAction::Run { args }
            &&& next < containers@.len() ==> args.deep_view() == seq![
                "show-ip"@,
                containers@[next as int]@,
            ]
        },
        SpawnStage::ListExisting { .. } => action matches SpawnAction::Run { args }
            && args.deep_view() == seq!["list"@],
        SpawnStage::CleanExisting { .. } => action is CleanContainer,
        SpawnStage::CleanArtifacts { .. } => action is CleanArtifacts,
        SpawnStage::WriteSettings { .. } => {
            &&& action matches SpawnAction::WriteSettings { dir, path, content }
            &&& dir@ == "/etc/systemd/nspawn"@
            &&& path@ == paths::joined_path("/etc/systemd/nspawn"@, name + ".nspawn"@)
            &&& content@ == NSPAWN_CONFIG_TEMPLATE@
        },
        SpawnStage::WriteToken { .. } => {
            &&& action matches SpawnAction::WriteSecret { path, content }
            &&& path@ == manager.token_path(name)
            &&& content@ == token
        },
        SpawnStage::Create { subnet } => action matches SpawnAction::Run { args }
            && args.deep_view() == create_args(name, manager.container_template@, subnet as nat),
        SpawnStage::UndoCreate { .. } => action matches SpawnAction::UndoCreate { token_file }
            && token_file@ == manager.token_path(name),
        SpawnStage::InstallToken => {
            &&& action matches SpawnAction::CopySecret { from, dir, to }
            &&& from@ == manager.token_path(name)
            &&& dir@ == paths::joined_path(root, "var/lib"@)
            &&& to@ == paths::joined_path(root, "var/lib/github-runner-token"@)
        },
        SpawnStage::Start => action matches SpawnAction::Run { args } && args.deep_view() == seq![
            "start"@,
            name,
        ],
        SpawnStage::UndoStart { .. } => action is CleanContainer,
        SpawnStage::RemoveToken => action matches SpawnAction::RemoveFile { path } && path@
            == manager.token_path(name),
        SpawnStage::Done { .. } => action is Finished,
    }
}

/// The replies to the questions for addresses that were answered.
pub open spec fn answered(ips: Seq<String>, reply: Result<String, ContainerError>) -> Seq<String> {
    match reply {
        Ok(ip) => ips.push(ip),
        Err(_) => ips,
    }
}

/// Whether `next` is where the making goes on, with a network that no address uses.
pub open spec fn goes_on_with_subnet(ips: Seq<String>, next: SpawnStage) -> bool {
    next matches SpawnStage::ListExisting { subnet } && container::is_free_subnet(
        container::used_octets(ips.map_values(|s: String| s@)),
        subnet as nat,
    )
}

/// Whether a failure is reported as it came.
pub open spec fn fails_with(error: ContainerError, next: SpawnStage) -> bool {
    next matches SpawnStage::Done { result } && result == Err::<String, ContainerError>(error)
}

/// Whether `next` follows `stage` when what had to be done has been answered by `reply`.
pub open spec fn is_spawn_step(
    name: Seq<char>,
    stage: SpawnStage,
    reply: Result<String, ContainerError>,
    next: SpawnStage,
) -> bool {
    match stage {
        SpawnStage::ListUsed => match reply {
            Ok(output) => {
                let found = container::all_containers(output@);
                if found.len() == 0 {
                    goes_on_with_subnet(seq![], next)
                } else {
                    &&& next matches SpawnStage::ShowAddress { containers, next: n, ips }
                    &&& containers.deep_view() == found
                    &&& n == 0
                    &&& ips@.len() == 0
                }
            },
            Err(e) => fails_with(e, next),
        },
        SpawnStage::ShowAddress { containers, next: n, ips } => if n + 1 < containers@.len() {
            &&& next matches SpawnStage::ShowAddress { containers: c, next: m, ips: i }
            &&& c@ == containers@
            &&& m == n + 1
            &&& i@ == answered(ips@, reply)
        } else {
            goes_on_with_subnet(answered(ips@, reply), next)
        },
        SpawnStage::ListExisting { subnet } => match reply {
            Ok(output) => if container::all_containers(output@).contains(name) {
                next == (SpawnStage::CleanExisting { subnet })
            } else {
                next == (SpawnStage::CleanArtifacts { subnet })
            },
            Err(e) => fails_with(e, next),
        },
        SpawnStage::CleanExisting { subnet } => next == (SpawnStage::CleanArtifacts { subnet }),
        SpawnStage::CleanArtifacts { subnet } => next == (SpawnStage::WriteSettings { subnet }),
        SpawnStage::WriteSettings { subnet } => match reply {
            Ok(_) => next == (SpawnStage::WriteToken { subnet }),
            Err(e) => fails_with(e, next),
        },
        SpawnStage::WriteToken { subnet } => match reply {
            Ok(_) => next == (SpawnStage::Create { subnet }),
            Err(e) => fails_with(e, next),
        },
        SpawnStage::Create { .. } => match reply {
            Ok(_) => next is InstallToken,
            Err(e) => next == (SpawnStage::UndoCreate { error: e }),
        },
        SpawnStage::UndoCreate { error } => fails_with(error, next),
        SpawnStage::InstallToken => match reply {
            Ok(_) => next is Start,
            Err(e) => fails_with(e, next),
        },
        SpawnStage::Start => match reply {
            Ok(_) => next is RemoveToken,
            Err(e) => next == (SpawnStage::UndoStart { error: e }),
        },
        SpawnStage::UndoStart { error } => fails_with(error, next),
        SpawnStage::RemoveToken => next matches SpawnStage::Done { result } && result matches Ok(n)
            && n@ == name,
        SpawnStage::Done { .. } => next == stage,
    }
}

fn address(subnet: u8, last: &str) -> (r: String)
    ensures
        r@ == "192.168."@ + number::decimal(subnet as nat) + last@,
{
    let mut r: String = "192.168.".to_string();
    r.append(decimal_text(subnet as u64).as_str());
    r.append(last);
    r
}

fn list_args() -> (r: Vec<String>)
    ensures
        r.deep_view() == seq!["list"@],
{
    let mut r: Vec<String> = Vec::new();
    r.push("list".to_string());
    assert(r.deep_view() =~= seq!["list"@]);
    r
}

fn create_command(name: &str, template: &str, subnet: u8) -> (r: Vec<String>)
    ensures
        r.deep_view() == create_args(name@, template@, subnet as nat),
{
    let mut r: Vec<String> = Vec::new();
    r.push("create".to_string());
    r.push(name.to_string());
    r.push("--config-file".to_string());
    r.push(template.to_string());
    r.push("--local-address".to_string());
    r.push(address(subnet, ".11"));
    r.push("--host-address".to_string());
    r.push(address(subnet, ".10"));
    assert(r.deep_view() =~= create_args(name@, template@, subnet as nat));
    r
}

impl ContainerManager {
    /// Begins to make a container.
    pub fn spawn_pool_container(&self) -> (r: SpawnStage)
        ensures
            r is ListUsed,
    {
        SpawnStage::ListUsed
    }

    /// What has to be done at a stage of the making of the container `name`, which gets `token`.
    pub fn spawn_action(&self, name: &str, token: &str, stage: &SpawnStage) -> (r: SpawnAction)
        ensures
            is_spawn_action(*self, name@, token@, *stage, r),
    {
        match stage {
            SpawnStage::ListUsed => SpawnAction::Run { args: list_args() },
            SpawnStage::ShowAddress { containers, next, .. } => {
                let container: &str = if *next < containers.len() {
                    containers[*next].as_str()
                } else {
                    ""
                };
                SpawnAction::Run { args: Self::container_args("show-ip", container) }
            },
            SpawnStage::ListExisting { .. } => SpawnAction::Run { args: list_args() },
            SpawnStage::CleanExisting { .. } => SpawnAction::CleanContainer,
            SpawnStage::CleanArtifacts { .. } => SpawnAction::CleanArtifacts,
            SpawnStage::WriteSettings { .. } => {
                let mut file: String = name.to_string();
                file.append(".nspawn");
                SpawnAction::WriteSettings {
                    dir: "/etc/systemd/nspawn".to_string(),
                    path: join_path("/etc/systemd/nspawn", file.as_str()),
                    content: NSPAWN_CONFIG_TEMPLATE.to_string(),
                }
            },
            SpawnStage::WriteToken { .. } => SpawnAction::WriteSecret {
                path: self.token_file(name),
                content: token.to_string(),
            },
            SpawnStage::Create { subnet } => SpawnAction::Run {
                args: create_command(name, self.container_template.as_str(), *subnet),
            },
            SpawnStage::UndoCreate { .. } => SpawnAction::UndoCreate {
                token_file: self.token_file(name),
            },
            SpawnStage::InstallToken => {
                let mut root: String = "/var/lib/nixos-containers/".to_string();
                root.append(name);
                SpawnAction::CopySecret {
                    from: self.token_file(name),
                    dir: join_path(root.as_str(), "var/lib"),
                    to: join_path(root.as_str(), "var/lib/github-runner-token"),
                }
            },
            SpawnStage::Start => SpawnAction::Run { args: Self::container_args("start", name) },
            SpawnStage::UndoStart { .. } => SpawnAction::CleanContainer,
            SpawnStage::RemoveToken => SpawnAction::RemoveFile { path: self.token_file(name) },
            SpawnStage::Done { .. } => SpawnAction::Finished,
        }
    }

    fn with_subnet(&self, ips: &Vec<String>) -> (r: SpawnStage)
        ensures
            goes_on_with_subnet(ips@, r),
    {
        let subnet: u8 = self.get_free_subnet(ips);
        assert(ips@.map_values(|s: String| s@) =~= ips.deep_view());
        SpawnStage::ListExisting { subnet }
    }

    /// Goes on with the making of the container `name` when what had to be done has been answered.
    pub fn resume_spawn(
        &self,
        name: &str,
        stage: SpawnStage,
        reply: Result<String, ContainerError>,
    ) -> (r: SpawnStage)
        ensures
            is_spawn_step(name@, stage, reply, r),
    {
        match stage {
            SpawnStage::ListUsed => match reply {
                Ok(output) => {
                    let containers = self.list_all(output.as_str());
                    let ips: Vec<String> = Vec::new();
                    if containers.len() == 0 {
                        assert(container::all_containers(output@).len() == 0);
                        assert(ips@ =~= seq![]);
                        self.with_subnet(&ips)
                    } else {
                        SpawnStage::ShowAddress { containers, next: 0, ips }
                    }
                },
                Err(e) => SpawnStage::Done { result: Err(e) },
            },
            SpawnStage::ShowAddress { containers, next, mut ips } => {
                match reply {
                    Ok(ip) => {
                        ips.push(ip);
                    },
                    Err(_) => {},
                }
                if next < containers.len() && next + 1 < containers.len() {
                    SpawnStage::ShowAddress { containers, next: next + 1, ips }
                } else {
                    self.with_subnet(&ips)
                }
            },
            SpawnStage::ListExisting { subnet } => match reply {
                Ok(output) => {
                    let containers = self.list_all(output.as_str());
                    if list_contains(&containers, name) {
                        SpawnStage::CleanExisting { subnet }
                    } else {
                        SpawnStage::CleanArtifacts { subnet }
                    }
                },
                Err(e) => SpawnStage::Done { result: Err(e) },
            },
            SpawnStage::CleanExisting { subnet } => SpawnStage::CleanArtifacts { subnet },
            SpawnStage::CleanArtifacts { subnet } => SpawnStage::WriteSettings { subnet },
            SpawnStage::WriteSettings { subnet } => match reply {
                Ok(_) => SpawnStage::WriteToken { subnet },
                Err(e) => SpawnStage::Done { result: Err(e) },
            },
            SpawnStage::WriteToken { subnet } => match reply {
                Ok(_) => SpawnStage::Create { subnet },
                Err(e) => SpawnStage::Done { result: Err(e) },
            },
            SpawnStage::Create { .. } => match reply {
                Ok(_) => SpawnStage::InstallToken,
                Err(e) => SpawnStage::UndoCreate { error: e },
            },
            SpawnStage::UndoCreate { error } => SpawnStage::Done { result: Err(error) },
            SpawnStage::InstallToken => match reply {
                Ok(_) => SpawnStage::Start,
                Err(e) => SpawnStage::Done { result: Err(e) },
            },
            SpawnStage::Start => match reply {
                Ok(_) => SpawnStage::RemoveToken,
                Err(e) => SpawnStage::UndoStart { error: e },
            },
            SpawnStage::UndoStart { error } => SpawnStage::Done { result: Err(error) },
            SpawnStage::RemoveToken => SpawnStage::Done { result: Ok(name.to_string()) },
            SpawnStage::Done { result } => SpawnStage::Done { result },
        }
    }
}

// ---------------------------------------------------------------------------------------------
// Laws
// ---------------------------------------------------------------------------------------------

/// How many kinds of stages may still come.
pub open spec fn stages_left(stage: SpawnStage) -> nat {
    match stage {
        SpawnStage::ListUsed => 12,
        SpawnStage::ShowAddress { .. } => 11,
        SpawnStage::ListExisting { .. } => 10,
        SpawnStage::CleanExisting { .. } => 9,
        SpawnStage::CleanArtifacts { .. } => 8,
        SpawnStage::WriteSettings { .. } => 7,
        SpawnStage::WriteToken { .. } => 6,
        SpawnStage::Create { .. } => 5,
        SpawnStage::InstallToken => 4,
        SpawnStage::Start => 3,
        SpawnStage::UndoCreate { .. } => 2,
        SpawnStage::UndoStart { .. } => 2,
        SpawnStage::RemoveToken => 2,
        SpawnStage::Done { .. } => 0,
    }
}

/// How many addresses may still be asked for.
pub open spec fn addresses_left(stage: SpawnStage) -> nat {
    match stage {
        SpawnStage::ShowAddress { containers, next, .. } => if next < containers@.len() {
            (containers@.len() - next) as nat
        } else {
            0
        },
        _ => 0,
    }
}

/// The making of a container ends: every step leads to a later stage, or asks for one address less.
pub proof fn lemma_spawning_ends(
    name: Seq<char>,
    stage: SpawnStage,
    reply: Result<String, ContainerError>,
    next: SpawnStage,
)
    requires
        !(stage is Done),
        is_spawn_step(name, stage, reply, next),
    ensures
        stages_left(next) < stages_left(stage) || (stages_left(next) == stages_left(stage)
            && addresses_left(next) < addresses_left(stage)),
{
}

/// A container is reported to run only when it has been started, under its own name, and the token
/// has been put into it before.
pub proof fn lemma_success_comes_last(
    name: Seq<char>,
    stage: SpawnStage,
    reply: Result<String, ContainerError>,
    next: SpawnStage,
)
    requires
        !(stage is Done),
        is_spawn_step(name, stage, reply, next),
    ensures
        next matches SpawnStage::Done { result: Ok(n) } ==> stage is RemoveToken && n@ == name,
        next is RemoveToken ==> stage is Start && reply is Ok,
        next is Start ==> stage is InstallToken && reply is Ok,
        next is InstallToken ==> stage is Create && reply is Ok,
{
}

/// A container that could not be created or started is cleaned up before that is reported, and the
/// error that is reported is the one that came up.
pub proof fn lemma_failures_are_undone(
    name: Seq<char>,
    stage: SpawnStage,
    error: ContainerError,
    next: SpawnStage,
    reply: Result<String, ContainerError>,
    last: SpawnStage,
)
    requires
        stage is Create || stage is Start,
        is_spawn_step(name, stage, Err(error), next),
        is_spawn_step(name, next, reply, last),
    ensures
        next is UndoCreate || next is UndoStart,
        fails_with(error, last),
{
}

} // verus!
