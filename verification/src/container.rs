//! Containers: their names, addresses and files, and the commands that manage them.

use std::collections::hash_map::DefaultHasher;
use std::hash::{Hash, Hasher};

use vstd::prelude::*;
use vstd::std_specs::hash::DefaultHasherAdditionalSpecFns;

use crate::number;
use crate::number::{decimal_text, hex_text, parse_u8};
use crate::paths;
use crate::paths::join_path;
use crate::search;
use crate::search::{find_text, has_only_digits, has_only_hex_digits, has_text};
use crate::text;
use crate::text::{copy_list, join, same_text, split_at, split_lines, trim, CharClass};

verus! {

/// The settings of a container that is to run containers itself.
pub const NSPAWN_CONFIG_TEMPLATE: &'static str =
    "[Exec]\nSystemCallFilter=add_key keyctl bpf\nCapability=all\n\n[Files]\nBind=/sys/fs/bpf\nBindReadOnly=/sys/module\nBindReadOnly=/lib/modules\nBindReadOnly=/run/secrets\nBindReadOnly=/run/agenix\n";

/// Where the container program, its template and the controller's state are.
#[derive(Debug)]
pub struct ContainerManager {
    pub nixos_container_bin: String,
    pub container_template: String,
    pub state_dir: String,
}

/// Why a container command failed.
#[derive(Debug, PartialEq, Eq)]
pub enum ContainerError {
    /// The container program could not be run.
    NotExecuted,
    /// The container program ended without success.
    Failed { args: Vec<String>, stderr: String },
    /// A file could not be written or copied.
    File { message: String },
}

/// What an error says.
pub open spec fn container_error_text(e: ContainerError) -> Seq<char> {
    match e {
        ContainerError::NotExecuted => "Failed to execute nixos-container"@,
        ContainerError::Failed { args, stderr } => "nixos-container "@ + text::joined(
            args.deep_view(),
            " "@,
        ) + " failed: "@ + stderr@,
        ContainerError::File { message } => message@,
    }
}

impl ContainerError {
    /// The error in words.
    pub fn message(&self) -> (r: String)
        ensures
            r@ == container_error_text(*self),
    {
        match self {
            ContainerError::NotExecuted => "Failed to execute nixos-container".to_string(),
            ContainerError::Failed { args, stderr } => {
                let mut r: String = "nixos-container ".to_string();
                r.append(join(args, " ").as_str());
                r.append(" failed: ");
                r.append(stderr.as_str());
                r
            },
            ContainerError::File { message } => message.clone(),
        }
    }
}

// ---------------------------------------------------------------------------------------------
// Names
// ---------------------------------------------------------------------------------------------

/// What hashing a text hands to the hasher.
pub uninterp spec fn hashed_chunks(s: Seq<char>) -> Seq<Seq<u8>>;

/// Calls `str::hash`, which hands bytes that depend on the text alone to the hasher.
#[verifier::external_body]
fn feed_text(s: &str, hasher: &mut DefaultHasher)
    ensures
        final(hasher)@ == old(hasher)@ + hashed_chunks(s@),
{
    s.hash(hasher);
}

/// The hash of a text.
pub open spec fn text_hash(s: Seq<char>) -> u64 {
    DefaultHasher::spec_finish(Seq::<Seq<u8>>::empty() + hashed_chunks(s))
}

/// The first characters of a number in hexadecimal, five at most.
pub open spec fn short_id(hash: u64) -> Seq<char> {
    let hex = number::hexadecimal(hash as nat);
    if hex.len() <= 5 {
        hex
    } else {
        hex.take(5)
    }
}

/// The name of the container of a slot, on a host whose name has this hash.
pub open spec fn container_name(hash: u64, slot: nat) -> Seq<char> {
    short_id(hash) + "-r"@ + number::decimal(slot)
}

/// Whether a container belongs to the pool: five hexadecimal digits, `-r` and a slot number.
pub open spec fn is_pool_name(name: Seq<char>) -> bool {
    let i = search::index_of_text(name, "-r"@);
    let slot = name.skip(i + 2);
    &&& search::contains_text(name, "-r"@)
    &&& i == 5
    &&& search::all_hex_digits(name.take(i))
    &&& slot.len() > 0
    &&& search::all_digits(slot)
}

/// Whether a container is one of the former kind: `j` and a job number.
pub open spec fn is_job_name(name: Seq<char>) -> bool {
    &&& !search::contains_text(name, "-r"@)
    &&& name.len() > 1
    &&& name[0] == 'j'
    &&& search::all_digits(name.drop_first())
}

/// The name of this host: what the environment says or, without that, what the host's file says.
pub fn hostname(variable: Option<&str>, file: Option<&str>) -> (r: String)
    ensures
        r@ == match variable {
            Some(v) => v@,
            None => match file {
                Some(f) => text::trim_spec(f@),
                None => "runner"@,
            },
        },
{
    match variable {
        Some(v) => v.to_string(),
        None => match file {
            Some(f) => trim(f),
            None => "runner".to_string(),
        },
    }
}

fn test_pool_name(name: &str) -> (r: bool)
    ensures
        r == is_pool_name(name@),
{
    proof {
        reveal_strlit("-r");
    }
    let i: usize = match find_text(name, "-r") {
        Some(i) => i,
        None => {
            return false;
        },
    };
    if i != 5 {
        return false;
    }
    let prefix = search::subtext(name, 0, i);
    assert(prefix@ =~= name@.take(i as int));
    let slot = search::text_after(name, i + 2);
    has_only_hex_digits(prefix.as_str()) && !slot.as_str().is_empty() && has_only_digits(
        slot.as_str(),
    )
}

fn test_job_name(name: &str) -> (r: bool)
    ensures
        r == is_job_name(name@),
{
    if has_text(name, "-r") {
        return false;
    }
    let size: usize = name.unicode_len();
    if size <= 1 || name.get_char(0) != 'j' {
        return false;
    }
    let rest = search::text_after(name, 1);
    assert(rest@ =~= name@.drop_first());
    has_only_digits(rest.as_str())
}

/// The trimmed lines of a listing.
pub open spec fn listed(output: Seq<char>) -> Seq<Seq<char>> {
    text::lines(output).map_values(|l: Seq<char>| text::trim_spec(l))
}

/// The containers of the pool in a listing, in order.
pub open spec fn pool_containers(output: Seq<char>) -> Seq<Seq<char>> {
    listed(output).filter(|n: Seq<char>| is_pool_name(n))
}

/// The containers in a listing that belong to the pool or are of the former kind, in order.
pub open spec fn all_containers(output: Seq<char>) -> Seq<Seq<char>> {
    listed(output).filter(|n: Seq<char>| is_pool_name(n) || is_job_name(n))
}

/// The first octet that is free for a network: the least from 100 to 199 that no address uses, and
/// 100 where all are used.
pub open spec fn is_free_subnet(used: Seq<Option<nat>>, octet: nat) -> bool {
    if exists|n: nat| 100 <= n <= 199 && !used.contains(Some(n)) {
        &&& 100 <= octet <= 199
        &&& !used.contains(Some(octet))
        &&& forall|n: nat| 100 <= n < octet ==> used.contains(Some(n))
    } else {
        octet == 100
    }
}

/// The third octet of an address.
pub open spec fn third_octet(ip: Seq<char>) -> Option<nat> {
    let parts = text::split(text::trim_spec(ip), CharClass::Dot);
    if parts.len() > 2 {
        number::parse_up_to(parts[2], u8::MAX as nat)
    } else {
        None
    }
}

/// The octets that addresses use.
pub open spec fn used_octets(ips: Seq<Seq<char>>) -> Seq<Option<nat>> {
    ips.map_values(|ip: Seq<char>| third_octet(ip))
}

fn octet_of(ip: &str) -> (r: Option<u8>)
    ensures
        r is Some <==> third_octet(ip@) is Some,
        r matches Some(n) ==> third_octet(ip@) == Some(n as nat),
{
    let t = trim(ip);
    let parts = split_at(t.as_str(), CharClass::Dot);
    let ghost views = text::split(t@, CharClass::Dot);
    assert(parts.deep_view() == views);
    if parts.len() > 2 {
        assert(views[2] == parts@[2]@);
        parse_u8(parts[2].as_str())
    } else {
        None
    }
}

fn free_subnet(ips: &Vec<String>) -> (r: u8)
    ensures
        is_free_subnet(used_octets(ips.deep_view()), r as nat),
{
    let ghost used = used_octets(ips.deep_view());
    let mut octet: u8 = 100;
    while octet <= 199
        invariant
            100 <= octet <= 200,
            used == used_octets(ips.deep_view()),
            forall|n: nat| 100 <= n < octet ==> used.contains(Some(n)),
        decreases 200 - octet,
    {
        let mut taken: bool = false;
        let mut i: usize = 0;
        while i < ips.len()
            invariant
                i <= ips@.len(),
                used == used_octets(ips.deep_view()),
                taken <==> exists|j: int| 0 <= j < i && #[trigger] used[j] == Some(octet as nat),
            decreases ips.len() - i,
        {
            let own = octet_of(ips[i].as_str());
            assert(used[i as int] == third_octet(ips@[i as int]@));
            match own {
                Some(n) => {
                    if n == octet {
                        assert(used[i as int] == Some(octet as nat));
                        taken = true;
                    }
                },
                None => {},
            }
            i = i + 1;
        }
        if !taken {
            assert(!used.contains(Some(octet as nat))) by {
                if used.contains(Some(octet as nat)) {
                    let j = choose|j: int| 0 <= j < used.len() && used[j] == Some(octet as nat);
                    assert(used[j] == Some(octet as nat));
                }
            }
            let ghost witness = octet as nat;
            assert(100 <= witness <= 199 && !used.contains(Some(witness)));
            return octet;
        }
        octet = octet + 1;
    }
    100
}

fn filter_names(output: &str, with_jobs: bool) -> (r: Vec<String>)
    ensures
        r.deep_view() == if with_jobs {
            all_containers(output@)
        } else {
            pool_containers(output@)
        },
{
    let lines = split_lines(output);
    let names = text::trim_all(&lines);
    let ghost views = listed(output@);
    assert(names.deep_view() =~= views);
    let ghost keep = if with_jobs {
        |n: Seq<char>| is_pool_name(n) || is_job_name(n)
    } else {
        |n: Seq<char>| is_pool_name(n)
    };
    let mut r: Vec<String> = Vec::new();
    let mut i: usize = 0;
    assert(views.take(0).filter(keep) =~= seq![]) by {
        reveal(Seq::filter);
    }
    assert(r.deep_view() =~= seq![]);
    while i < names.len()
        invariant
            i <= names@.len(),
            views == names.deep_view(),
            forall|n: Seq<char>|
                #[trigger] keep(n) <==> is_pool_name(n) || (with_jobs && is_job_name(n)),
            r.deep_view() == views.take(i as int).filter(keep),
        decreases names.len() - i,
    {
        let ghost before = r.deep_view();
        let name = &names[i];
        assert(views[i as int] == name@);
        if test_pool_name(name.as_str()) || (with_jobs && test_job_name(name.as_str())) {
            r.push(name.clone());
            assert(r.deep_view() =~= before.push(name@));
        }
        proof {
            text::lemma_filter_step(views, i as int, keep);
        }
        i = i + 1;
    }
    assert(views.take(i as int) =~= views);
    r
}

// ---------------------------------------------------------------------------------------------
// Commands and files
// ---------------------------------------------------------------------------------------------

/// What became of a run of the container program.
#[derive(Debug, PartialEq, Eq)]
pub enum ContainerOutcome {
    /// The program could not be run.
    NotExecuted,
    /// The program ended.
    Exited { success: bool, stdout: String, stderr: String },
}

/// The files and the network interface that a container leaves behind.
#[derive(Debug, PartialEq, Eq)]
pub struct ContainerArtifacts {
    pub nspawn_config: String,
    pub unix_export: String,
    pub profile_dir: String,
    pub container_root: String,
    pub interface: String,
    pub token_file: String,
}

/// What has to be done to clean a container up, in this order: stop its service, stop it, destroy it,
/// and remove what it leaves behind. What fails on the way keeps nothing else from being done.
#[derive(Debug, PartialEq, Eq)]
pub struct ContainerCleanup {
    pub service: String,
    pub stop: Vec<String>,
    pub destroy: Vec<String>,
    pub artifacts: ContainerArtifacts,
}

fn text3(a: &str, b: &str, c: &str) -> (r: String)
    ensures
        r@ == a@ + b@ + c@,
{
    let mut r: String = a.to_string();
    r.append(b);
    r.append(c);
    r
}

impl ContainerManager {
    /// A manager that uses the container program of the running system.
    pub fn new(state_dir: String) -> (r: Self)
        ensures
            r.nixos_container_bin@ == "/run/current-system/sw/bin/nixos-container"@,
            r.container_template@ == "/etc/nixos/ci-container-template.nix"@,
            r.state_dir == state_dir,
    {
        ContainerManager {
            nixos_container_bin: "/run/current-system/sw/bin/nixos-container".to_string(),
            container_template: "/etc/nixos/ci-container-template.nix".to_string(),
            state_dir,
        }
    }

    /// A manager that uses this container program and this template.
    pub fn with_programs(
        nixos_container_bin: String,
        container_template: String,
        state_dir: String,
    ) -> (r: Self)
        ensures
            r.nixos_container_bin == nixos_container_bin,
            r.container_template == container_template,
            r.state_dir == state_dir,
    {
        ContainerManager { nixos_container_bin, container_template, state_dir }
    }

    /// Hashes a text.
    pub fn hash_string(s: &str) -> (r: u64)
        ensures
            r == text_hash(s@),
    {
        let mut hasher = DefaultHasher::new();
        feed_text(s, &mut hasher);
        hasher.finish()
    }

    /// The name of the container of a slot on a host.
    pub fn slot_to_container_name(hostname: &str, slot: usize) -> (r: String)
        ensures
            r@ == container_name(text_hash(hostname@), slot as nat),
    {
        Self::hashed_container_name(Self::hash_string(hostname), slot)
    }

    /// The name of the container of a slot on a host whose name has this hash.
    pub fn hashed_container_name(hash: u64, slot: usize) -> (r: String)
        ensures
            r@ == container_name(hash, slot as nat),
    {
        let hex = hex_text(hash);
        let size: usize = hex.as_str().unicode_len();
        let short = if size <= 5 {
            hex
        } else {
            search::subtext(hex.as_str(), 0, 5)
        };
        assert(short@ =~= short_id(hash));
        text3(short.as_str(), "-r", decimal_text(slot as u64).as_str())
    }

    /// The containers of the pool in a listing: five hexadecimal digits, `-r` and a slot number.
    pub fn list(&self, output: &str) -> (r: Vec<String>)
        ensures
            r.deep_view() == pool_containers(output@),
    {
        filter_names(output, false)
    }

    /// The containers in a listing that belong to the pool or are of the former kind.
    pub fn list_all(&self, output: &str) -> (r: Vec<String>)
        ensures
            r.deep_view() == all_containers(output@),
    {
        filter_names(output, true)
    }

    /// Finds a free subnet for a new container, given the addresses of the containers that have one.
    pub fn get_free_subnet(&self, ips: &Vec<String>) -> (r: u8)
        ensures
            is_free_subnet(used_octets(ips.deep_view()), r as nat),
    {
        free_subnet(ips)
    }

    /// Makes an output or an error of what became of a container command.
    pub fn finish_command(&self, args: &Vec<String>, outcome: ContainerOutcome) -> (r: Result<
        String,
        ContainerError,
    >)
        ensures
            match outcome {
                ContainerOutcome::NotExecuted => r matches Err(ContainerError::NotExecuted),
                ContainerOutcome::Exited { success, stdout, stderr } => if success {
                    r == Ok::<String, ContainerError>(stdout)
                } else {
                    r matches Err(ContainerError::Failed { args: a, stderr: e }) && a.deep_view()
                        == args.deep_view() && e == stderr
                },
            },
    {
        match outcome {
            ContainerOutcome::NotExecuted => Err(ContainerError::NotExecuted),
            ContainerOutcome::Exited { success, stdout, stderr } => if success {
                Ok(stdout)
            } else {
                Err(ContainerError::Failed { args: copy_list(args), stderr })
            },
        }
    }

    /// The arguments that run a command inside a container.
    pub fn run_args(name: &str, command: &Vec<String>) -> (r: Vec<String>)
        ensures
            r.deep_view() == seq!["run"@, name@, "--"@] + command.deep_view(),
    {
        let mut r: Vec<String> = Vec::new();
        r.push("run".to_string());
        r.push(name.to_string());
        r.push("--".to_string());
        let ghost head = r.deep_view();
        assert(head =~= seq!["run"@, name@, "--"@]);
        let mut i: usize = 0;
        while i < command.len()
            invariant
                i <= command@.len(),
                r.deep_view() =~= head + command.deep_view().take(i as int),
            decreases command.len() - i,
        {
            let ghost before = r.deep_view();
            r.push(command[i].clone());
            assert(r.deep_view() =~= before.push(command@[i as int]@));
            i = i + 1;
        }
        assert(command.deep_view().take(i as int) =~= command.deep_view());
        r
    }

    /// The command that tells whether a container can be reached.
    pub fn reach_args(name: &str) -> (r: Vec<String>)
        ensures
            r.deep_view() == seq!["run"@, name@, "--"@, "true"@],
    {
        let mut r: Vec<String> = Vec::new();
        r.push("run".to_string());
        r.push(name.to_string());
        r.push("--".to_string());
        r.push("true".to_string());
        assert(r.deep_view() =~= seq!["run"@, name@, "--"@, "true"@]);
        r
    }

    /// The command that asks for the status of a service in a container.
    pub fn status_args(name: &str, service: &str) -> (r: Vec<String>)
        ensures
            r.deep_view() == seq!["run"@, name@, "--"@, "systemctl"@, "is-active"@, service@],
    {
        let mut command: Vec<String> = Vec::new();
        command.push("systemctl".to_string());
        command.push("is-active".to_string());
        command.push(service.to_string());
        assert(command.deep_view() =~= seq!["systemctl"@, "is-active"@, service@]);
        let r = Self::run_args(name, &command);
        assert(r.deep_view() =~= seq![
            "run"@,
            name@,
            "--"@,
            "systemctl"@,
            "is-active"@,
            service@,
        ]);
        r
    }

    /// The command that asks for the result of a service in a container.
    pub fn result_args(name: &str, service: &str) -> (r: Vec<String>)
        ensures
            r.deep_view() == seq![
                "run"@,
                name@,
                "--"@,
                "systemctl"@,
                "show"@,
                service@,
                "--property=Result"@,
            ],
    {
        let mut command: Vec<String> = Vec::new();
        command.push("systemctl".to_string());
        command.push("show".to_string());
        command.push(service.to_string());
        command.push("--property=Result".to_string());
        assert(command.deep_view() =~= seq![
            "systemctl"@,
            "show"@,
            service@,
            "--property=Result"@,
        ]);
        let r = Self::run_args(name, &command);
        assert(r.deep_view() =~= seq![
            "run"@,
            name@,
            "--"@,
            "systemctl"@,
            "show"@,
            service@,
            "--property=Result"@,
        ]);
        r
    }

    /// Whether the result of the service has to be asked for as well, given its status.
    pub fn needs_result(status: Option<&str>) -> (r: bool)
        ensures
            r == (status_word(status) == "inactive"@),
    {
        let word = match status {
            Some(s) => trim(s),
            None => "unknown".to_string(),
        };
        same_text(word.as_str(), "inactive")
    }

    /// Tells whether the service of a worker has completed. `status` is what the service manager says
    /// of it, and `result` what it says of its last run, where that was asked for.
    ///
    /// A container that cannot be reached counts as completed, and so does a service that failed. A
    /// service that is not active has completed where it has run before.
    pub fn is_worker_completed(reachable: bool, status: Option<&str>, result: Option<&str>) -> (r:
        bool)
        ensures
            r == is_completed(reachable, status_word(status), text::optional_str(result)),
    {
        if !reachable {
            return true;
        }
        let word = match status {
            Some(s) => trim(s),
            None => "unknown".to_string(),
        };
        let w = word.as_str();
        proof {
            lemma_status_words();
        }
        if same_text(w, "active") || same_text(w, "activating") || same_text(w, "reloading") {
            return false;
        }
        if same_text(w, "failed") {
            return true;
        }
        if same_text(w, "inactive") {
            return match result {
                Some(s) => has_text(s, "success") || has_text(s, "exit-code"),
                None => false,
            };
        }
        false
    }

    /// The service that stops with a container.
    pub fn container_service(name: &str) -> (r: String)
        ensures
            r@ == "container@"@ + name@ + ".service"@,
    {
        text3("container@", name, ".service")
    }

    /// The command that does something with a whole container, such as stopping it.
    pub fn container_args(verb: &str, name: &str) -> (r: Vec<String>)
        ensures
            r.deep_view() == seq![verb@, name@],
    {
        let mut r: Vec<String> = Vec::new();
        r.push(verb.to_string());
        r.push(name.to_string());
        assert(r.deep_view() =~= seq![verb@, name@]);
        r
    }

    /// The command that stops a container.
    pub fn stop(&self, name: &str) -> (r: Vec<String>)
        ensures
            r.deep_view() == seq!["stop"@, name@],
    {
        Self::container_args("stop", name)
    }

    /// The command that destroys a container.
    pub fn destroy(&self, name: &str) -> (r: Vec<String>)
        ensures
            r.deep_view() == seq!["destroy"@, name@],
    {
        Self::container_args("destroy", name)
    }

    /// What has to be done to clean a container up.
    pub fn cleanup_container(&self, name: &str) -> (r: ContainerCleanup)
        ensures
            r.service@ == "container@"@ + name@ + ".service"@,
            r.stop.deep_view() == seq!["stop"@, name@],
            r.destroy.deep_view() == seq!["destroy"@, name@],
            self.are_artifacts(name@, r.artifacts),
    {
        ContainerCleanup {
            service: Self::container_service(name),
            stop: self.stop(name),
            destroy: self.destroy(name),
            artifacts: self.cleanup_artifacts(name),
        }
    }

    /// Whether these are the artifacts of a container.
    pub open spec fn are_artifacts(self, name: Seq<char>, a: ContainerArtifacts) -> bool {
        &&& a.nspawn_config@ == "/etc/systemd/nspawn/"@ + name + ".nspawn"@
        &&& a.unix_export@ == "/run/systemd/nspawn/unix-export/"@ + name
        &&& a.profile_dir@ == "/nix/var/nix/profiles/per-container/"@ + name
        &&& a.container_root@ == "/var/lib/nixos-containers/"@ + name
        &&& a.interface@ == "ve-"@ + name
        &&& a.token_file@ == self.token_path(name)
    }

    /// Where the token of a container is kept while the container is made.
    pub open spec fn token_path(self, name: Seq<char>) -> Seq<char> {
        paths::joined_path(self.state_dir@, name + ".token"@)
    }

    /// The file where the token of a container is kept while the container is made.
    pub fn token_file(&self, name: &str) -> (r: String)
        ensures
            r@ == self.token_path(name@),
    {
        let mut file: String = name.to_string();
        file.append(".token");
        join_path(self.state_dir.as_str(), file.as_str())
    }

    /// What a container leaves behind, all of which is removed when the container is cleaned up.
    pub fn cleanup_artifacts(&self, name: &str) -> (r: ContainerArtifacts)
        ensures
            self.are_artifacts(name@, r),
    {
        let mut unix_export: String = "/run/systemd/nspawn/unix-export/".to_string();
        unix_export.append(name);
        let mut profile_dir: String = "/nix/var/nix/profiles/per-container/".to_string();
        profile_dir.append(name);
        let mut container_root: String = "/var/lib/nixos-containers/".to_string();
        container_root.append(name);
        let mut interface: String = "ve-".to_string();
        interface.append(name);
        ContainerArtifacts {
            nspawn_config: text3("/etc/systemd/nspawn/", name, ".nspawn"),
            unix_export,
            profile_dir,
            container_root,
            interface,
            token_file: self.token_file(name),
        }
    }
}

/// The status of a service in one word.
pub open spec fn status_word(status: Option<&str>) -> Seq<char> {
    match status {
        Some(s) => text::trim_spec(s@),
        None => "unknown"@,
    }
}

/// Whether a service has completed.
pub open spec fn is_completed(
    reachable: bool,
    status: Seq<char>,
    result: Option<Seq<char>>,
) -> bool {
    ||| !reachable
    ||| status == "failed"@
    ||| {
        &&& status == "inactive"@
        &&& result matches Some(s)
        &&& search::contains_text(s, "success"@) || search::contains_text(s, "exit-code"@)
    }
}

proof fn lemma_status_words()
    ensures
        "failed"@ != "active"@,
        "failed"@ != "activating"@,
        "failed"@ != "reloading"@,
        "inactive"@ != "active"@,
        "inactive"@ != "activating"@,
        "inactive"@ != "reloading"@,
        "inactive"@ != "failed"@,
{
    reveal_strlit("failed");
    reveal_strlit("active");
    reveal_strlit("activating");
    reveal_strlit("reloading");
    reveal_strlit("inactive");
    assert("failed"@[0] == 'f' && "active"@[0] == 'a' && "activating"@[0] == 'a');
    assert("reloading"@[0] == 'r' && "inactive"@[0] == 'i');
}

// ---------------------------------------------------------------------------------------------
// Laws
// ---------------------------------------------------------------------------------------------

/// No two slots of a host share a container.
pub proof fn lemma_slots_have_own_names(hash: u64, a: nat, b: nat)
    requires
        container_name(hash, a) == container_name(hash, b),
    ensures
        a == b,
{
    let head = short_id(hash) + "-r"@;
    let n = head.len() as int;
    assert(container_name(hash, a).skip(n) =~= number::decimal(a));
    assert(container_name(hash, b).skip(n) =~= number::decimal(b));
    number::lemma_decimal_reads_back(a);
    number::lemma_decimal_reads_back(b);
}

/// The container of a slot is recognised as one of the pool, on every host whose name has a hash
/// with at least five hexadecimal digits.
pub proof fn lemma_own_names_are_pool_names(hash: u64, slot: nat)
    requires
        hash >= 0x10000,
    ensures
        is_pool_name(container_name(hash, slot)),
{
    reveal_strlit("-r");
    let name = container_name(hash, slot);
    number::lemma_hexadecimal_digits(hash as nat);
    number::lemma_hexadecimal_length(hash as nat);
    number::lemma_decimal_digits(slot);
    assert(name.take(5) =~= short_id(hash));
    assert(name.skip(7) =~= number::decimal(slot));
    assert(search::occurs_at(name, "-r"@, 5)) by {
        assert(name.subrange(5, 7) =~= "-r"@);
    }
    assert forall|j: int| 0 <= j < 5 implies !search::occurs_at(name, "-r"@, j) by {
        if search::occurs_at(name, "-r"@, j) {
            assert(name.subrange(j, j + 2)[0] == '-');
            assert(name[j] == number::hexadecimal(hash as nat)[j]);
            assert(text::is_hex_digit(name[j]));
        }
    }
    assert(search::first_at(name, "-r"@, 5));
    search::lemma_first_at_is_index(name, "-r"@, 5);
    assert forall|i: int| 0 <= i < 5 implies text::is_hex_digit(#[trigger] name.take(5)[i]) by {
        assert(name.take(5)[i] == number::hexadecimal(hash as nat)[i]);
    }
}

/// Both listings agree on the pool: it is made of the listed containers with a name of the pool.
pub proof fn lemma_listings_agree(output: Seq<char>, name: Seq<char>)
    ensures
        pool_containers(output).contains(name) <==> all_containers(output).contains(name)
            && is_pool_name(name),
{
    let names = listed(output);
    let pool = |n: Seq<char>| is_pool_name(n);
    let all = |n: Seq<char>| is_pool_name(n) || is_job_name(n);
    if pool_containers(output).contains(name) {
        let i = choose|i: int|
            0 <= i < pool_containers(output).len() && pool_containers(output)[i] == name;
        names.lemma_filter_pred(pool, i);
        names.lemma_filter_contains_rev(pool, name);
        let j = choose|j: int| 0 <= j < names.len() && names[j] == name;
        names.lemma_filter_contains(all, j);
    }
    if all_containers(output).contains(name) && is_pool_name(name) {
        names.lemma_filter_contains_rev(all, name);
        let j = choose|j: int| 0 <= j < names.len() && names[j] == name;
        names.lemma_filter_contains(pool, j);
    }
}

/// A network that a new container gets lies from 100 to 199, and no listed address uses it as long
/// as one of those is free.
pub proof fn lemma_free_subnet(used: Seq<Option<nat>>, octet: nat)
    requires
        is_free_subnet(used, octet),
    ensures
        100 <= octet <= 199,
        (exists|n: nat| 100 <= n <= 199 && !used.contains(Some(n))) ==> !used.contains(
            Some(octet),
        ),
{
}

} // verus!
