//! Configuration of the controller.

use core::time::Duration;
use vstd::prelude::*;

use crate::clock;
use crate::number;
use crate::number::{parse_u16, parse_u64, parse_usize};
use crate::paths;
use crate::paths::join_path;
use crate::search;
use crate::text;
use crate::text::{find_class, find_last_class, same_text, split_csv, trim, CharClass};

verus! {

/// A piece of software that a worker offers.
#[derive(Debug, PartialEq, Eq)]
pub struct WorkerSoftware {
    pub name: String,
    pub version: String,
    pub path: String,
}

/// A price per second that a worker accepts, for one mint and unit.
#[derive(Debug, PartialEq, Eq)]
pub struct WorkerPrice {
    pub mint_url: String,
    pub price_per_second: String,
    pub unit: String,
}

impl Clone for WorkerSoftware {
    fn clone(&self) -> (r: Self)
        ensures
            r == *self,
    {
        WorkerSoftware {
            name: self.name.clone(),
            version: self.version.clone(),
            path: self.path.clone(),
        }
    }
}

impl Clone for WorkerPrice {
    fn clone(&self) -> (r: Self)
        ensures
            r == *self,
    {
        WorkerPrice {
            mint_url: self.mint_url.clone(),
            price_per_second: self.price_per_second.clone(),
            unit: self.unit.clone(),
        }
    }
}

/// A copy of a list of software.
pub fn copy_software(v: &Vec<WorkerSoftware>) -> (r: Vec<WorkerSoftware>)
    ensures
        r@ == v@,
{
    let mut r: Vec<WorkerSoftware> = Vec::new();
    let mut i: usize = 0;
    while i < v.len()
        invariant
            i <= v@.len(),
            r@ =~= v@.take(i as int),
        decreases v.len() - i,
    {
        r.push(v[i].clone());
        i = i + 1;
    }
    r
}

/// A copy of a list of prices.
pub fn copy_prices(v: &Vec<WorkerPrice>) -> (r: Vec<WorkerPrice>)
    ensures
        r@ == v@,
{
    let mut r: Vec<WorkerPrice> = Vec::new();
    let mut i: usize = 0;
    while i < v.len()
        invariant
            i <= v@.len(),
            r@ =~= v@.take(i as int),
        decreases v.len() - i,
    {
        r.push(v[i].clone());
        i = i + 1;
    }
    r
}

/// Everything that the controller can be told from outside.
#[derive(Debug)]
pub struct Config {
    pub relays: Vec<String>,
    pub worker_software: Vec<WorkerSoftware>,
    pub worker_prices: Vec<WorkerPrice>,
    pub worker_name: String,
    pub worker_description: String,
    pub worker_architecture: String,
    pub worker_default_shell: String,
    pub worker_geohash: Option<String>,
    pub worker_min_duration: u64,
    pub worker_max_duration: u64,
    pub worker_max_concurrent_jobs: u64,
    pub advertise_interval: Duration,
    pub worker_service_name: String,
    pub blossom_servers: Vec<String>,
    pub cashu_mints: Vec<String>,
    pub max_concurrent_jobs: usize,
    pub poll_interval: Duration,
    pub job_timeout: Duration,
    pub worker_http_port: u16,
    pub worker_act_path: String,
    pub worker_ngit_path: String,
    pub worker_git_remote_nostr_path: String,
    pub worker_work_dir: String,
    pub state_dir: String,
    pub cdk_cli_path: String,
    pub cdk_work_dir: String,
    pub cdk_engine: String,
    pub nixos_container_bin: String,
    pub http_addr: String,
    pub http_port: u16,
}

// ---------------------------------------------------------------------------------------------
// Environment
// ---------------------------------------------------------------------------------------------

/// A variable of the environment.
#[derive(Debug, Clone, Copy, PartialEq, Eq, Structural)]
pub enum Variable {
    NostrRelays,
    WorkerSoftware,
    WorkerPrices,
    WorkerName,
    WorkerDescription,
    WorkerArchitecture,
    WorkerDefaultShell,
    WorkerGeohash,
    WorkerServiceName,
    BlossomServers,
    CashuMints,
    WorkerHttpPort,
    WorkerActPath,
    WorkerNgitPath,
    WorkerGitRemoteNostrPath,
    WorkerWorkDir,
    StateDir,
    CdkCliPath,
    CdkWorkDir,
    CdkEngine,
    NixosContainerBin,
    ContainerTemplate,
    HttpAddr,
    HttpPort,
    MaxConcurrent,
    PollInterval,
    JobTimeout,
    AdvertiseInterval,
    WorkerMinDuration,
    WorkerMaxDuration,
    WorkerMaxConcurrentJobs,
    GitHubRepo,
    GitHubTokenFile,
    RunnerStartupTimeout,
    RunnerLabels,
    RequesterNsec,
    WorkerPubkey,
    PaymentToken,
    JobRepo,
    JobRef,
    JobWorkflow,
    JobName,
    JobEvent,
    JobEventPayload,
}

/// The name of a variable.
pub open spec fn variable_name(v: Variable) -> Seq<char> {
    match v {
        Variable::NostrRelays => "NOSTR_RELAYS"@,
        Variable::WorkerSoftware => "WORKER_SOFTWARE"@,
        Variable::WorkerPrices => "WORKER_PRICES"@,
        Variable::WorkerName => "WORKER_NAME"@,
        Variable::WorkerDescription => "WORKER_DESCRIPTION"@,
        Variable::WorkerArchitecture => "WORKER_ARCHITECTURE"@,
        Variable::WorkerDefaultShell => "WORKER_DEFAULT_SHELL"@,
        Variable::WorkerGeohash => "WORKER_GEOHASH"@,
        Variable::WorkerServiceName => "WORKER_SERVICE_NAME"@,
        Variable::BlossomServers => "BLOSSOM_SERVERS"@,
        Variable::CashuMints => "CASHU_MINTS"@,
        Variable::WorkerHttpPort => "WORKER_HTTP_PORT"@,
        Variable::WorkerActPath => "WORKER_ACT_PATH"@,
        Variable::WorkerNgitPath => "WORKER_NGIT_PATH"@,
        Variable::WorkerGitRemoteNostrPath => "WORKER_GIT_REMOTE_NOSTR_PATH"@,
        Variable::WorkerWorkDir => "WORKER_WORK_DIR"@,
        Variable::StateDir => "STATE_DIR"@,
        Variable::CdkCliPath => "CDK_CLI_PATH"@,
        Variable::CdkWorkDir => "CDK_WORK_DIR"@,
        Variable::CdkEngine => "CDK_ENGINE"@,
        Variable::NixosContainerBin => "NIXOS_CONTAINER_BIN"@,
        Variable::ContainerTemplate => "CONTAINER_TEMPLATE"@,
        Variable::HttpAddr => "HTTP_ADDR"@,
        Variable::HttpPort => "HTTP_PORT"@,
        Variable::MaxConcurrent => "MAX_CONCURRENT"@,
        Variable::PollInterval => "POLL_INTERVAL"@,
        Variable::JobTimeout => "JOB_TIMEOUT"@,
        Variable::AdvertiseInterval => "ADVERTISE_INTERVAL"@,
        Variable::WorkerMinDuration => "WORKER_MIN_DURATION"@,
        Variable::WorkerMaxDuration => "WORKER_MAX_DURATION"@,
        Variable::WorkerMaxConcurrentJobs => "WORKER_MAX_CONCURRENT_JOBS"@,
        Variable::GitHubRepo => "GITHUB_REPO"@,
        Variable::GitHubTokenFile => "GITHUB_TOKEN_FILE"@,
        Variable::RunnerStartupTimeout => "RUNNER_STARTUP_TIMEOUT"@,
        Variable::RunnerLabels => "RUNNER_LABELS"@,
        Variable::RequesterNsec => "REQUESTER_NSEC"@,
        Variable::WorkerPubkey => "WORKER_PUBKEY"@,
        Variable::PaymentToken => "PAYMENT_TOKEN"@,
        Variable::JobRepo => "JOB_REPO"@,
        Variable::JobRef => "JOB_REF"@,
        Variable::JobWorkflow => "JOB_WORKFLOW"@,
        Variable::JobName => "JOB_NAME"@,
        Variable::JobEvent => "JOB_EVENT"@,
        Variable::JobEventPayload => "JOB_EVENT_PAYLOAD"@,
    }
}

impl Variable {
    /// The name of the variable.
    pub fn name(&self) -> (r: &'static str)
        ensures
            r@ == variable_name(*self),
    {
        match self {
            Variable::NostrRelays => "NOSTR_RELAYS",
            Variable::WorkerSoftware => "WORKER_SOFTWARE",
            Variable::WorkerPrices => "WORKER_PRICES",
            Variable::WorkerName => "WORKER_NAME",
            Variable::WorkerDescription => "WORKER_DESCRIPTION",
            Variable::WorkerArchitecture => "WORKER_ARCHITECTURE",
            Variable::WorkerDefaultShell => "WORKER_DEFAULT_SHELL",
            Variable::WorkerGeohash => "WORKER_GEOHASH",
            Variable::WorkerServiceName => "WORKER_SERVICE_NAME",
            Variable::BlossomServers => "BLOSSOM_SERVERS",
            Variable::CashuMints => "CASHU_MINTS",
            Variable::WorkerHttpPort => "WORKER_HTTP_PORT",
            Variable::WorkerActPath => "WORKER_ACT_PATH",
            Variable::WorkerNgitPath => "WORKER_NGIT_PATH",
            Variable::WorkerGitRemoteNostrPath => "WORKER_GIT_REMOTE_NOSTR_PATH",
            Variable::WorkerWorkDir => "WORKER_WORK_DIR",
            Variable::StateDir => "STATE_DIR",
            Variable::CdkCliPath => "CDK_CLI_PATH",
            Variable::CdkWorkDir => "CDK_WORK_DIR",
            Variable::CdkEngine => "CDK_ENGINE",
            Variable::NixosContainerBin => "NIXOS_CONTAINER_BIN",
            Variable::ContainerTemplate => "CONTAINER_TEMPLATE",
            Variable::HttpAddr => "HTTP_ADDR",
            Variable::HttpPort => "HTTP_PORT",
            Variable::MaxConcurrent => "MAX_CONCURRENT",
            Variable::PollInterval => "POLL_INTERVAL",
            Variable::JobTimeout => "JOB_TIMEOUT",
            Variable::AdvertiseInterval => "ADVERTISE_INTERVAL",
            Variable::WorkerMinDuration => "WORKER_MIN_DURATION",
            Variable::WorkerMaxDuration => "WORKER_MAX_DURATION",
            Variable::WorkerMaxConcurrentJobs => "WORKER_MAX_CONCURRENT_JOBS",
            Variable::GitHubRepo => "GITHUB_REPO",
            Variable::GitHubTokenFile => "GITHUB_TOKEN_FILE",
            Variable::RunnerStartupTimeout => "RUNNER_STARTUP_TIMEOUT",
            Variable::RunnerLabels => "RUNNER_LABELS",
            Variable::RequesterNsec => "REQUESTER_NSEC",
            Variable::WorkerPubkey => "WORKER_PUBKEY",
            Variable::PaymentToken => "PAYMENT_TOKEN",
            Variable::JobRepo => "JOB_REPO",
            Variable::JobRef => "JOB_REF",
            Variable::JobWorkflow => "JOB_WORKFLOW",
            Variable::JobName => "JOB_NAME",
            Variable::JobEvent => "JOB_EVENT",
            Variable::JobEventPayload => "JOB_EVENT_PAYLOAD",
        }
    }
}

/// What a variable is set to: the first of the entries with its name counts.
pub open spec fn setting(env: Seq<(String, String)>, v: Variable) -> Option<Seq<char>>
    decreases env.len(),
{
    if env.len() == 0 {
        None
    } else if env[0].0@ == variable_name(v) {
        Some(env[0].1@)
    } else {
        setting(env.drop_first(), v)
    }
}

/// What a variable is set to, or a default.
pub open spec fn setting_or(
    env: Seq<(String, String)>,
    v: Variable,
    default: Seq<char>,
) -> Seq<char> {
    match setting(env, v) {
        Some(s) => s,
        None => default,
    }
}

/// The number that a variable is set to, or a default; `None` where it is not a number up to `max`.
pub open spec fn number_setting(
    env: Seq<(String, String)>,
    v: Variable,
    default: nat,
    max: nat,
) -> Option<nat> {
    match setting(env, v) {
        Some(s) => number::parse_up_to(s, max),
        None => Some(default),
    }
}

/// Looks a variable up.
pub fn lookup(env: &Vec<(String, String)>, v: Variable) -> (r: Option<String>)
    ensures
        text::optional(r) == setting(env@, v),
{
    let name = v.name();
    let mut i: usize = 0;
    assert(env@.skip(0) =~= env@);
    while i < env.len()
        invariant
            i <= env@.len(),
            name@ == variable_name(v),
            setting(env@, v) == setting(env@.skip(i as int), v),
        decreases env.len() - i,
    {
        assert(env@.skip(i as int)[0] == env@[i as int]);
        assert(env@.skip(i as int).drop_first() =~= env@.skip(i + 1));
        if same_text(env[i].0.as_str(), name) {
            return Some(env[i].1.clone());
        }
        i = i + 1;
    }
    None
}

/// Looks a variable up, with a default.
pub fn lookup_or(env: &Vec<(String, String)>, v: Variable, default: &str) -> (r: String)
    ensures
        r@ == setting_or(env@, v, default@),
{
    match lookup(env, v) {
        Some(s) => s,
        None => default.to_string(),
    }
}

fn lookup_u64(env: &Vec<(String, String)>, v: Variable, default: u64) -> (r: Option<u64>)
    ensures
        r is Some <==> number_setting(env@, v, default as nat, u64::MAX as nat) is Some,
        r matches Some(n) ==> number_setting(env@, v, default as nat, u64::MAX as nat) == Some(
            n as nat,
        ),
{
    match lookup(env, v) {
        Some(s) => parse_u64(s.as_str()),
        None => Some(default),
    }
}

fn lookup_usize(env: &Vec<(String, String)>, v: Variable, default: usize) -> (r: Option<usize>)
    ensures
        r is Some <==> number_setting(env@, v, default as nat, usize::MAX as nat) is Some,
        r matches Some(n) ==> number_setting(env@, v, default as nat, usize::MAX as nat) == Some(
            n as nat,
        ),
{
    match lookup(env, v) {
        Some(s) => parse_usize(s.as_str()),
        None => Some(default),
    }
}

fn lookup_u16(env: &Vec<(String, String)>, v: Variable, default: u16) -> (r: Option<u16>)
    ensures
        r is Some <==> number_setting(env@, v, default as nat, u16::MAX as nat) is Some,
        r matches Some(n) ==> number_setting(env@, v, default as nat, u16::MAX as nat) == Some(
            n as nat,
        ),
{
    match lookup(env, v) {
        Some(s) => parse_u16(s.as_str()),
        None => Some(default),
    }
}

/// Why the environment gives no configuration.
#[derive(Debug, Clone, Copy, PartialEq, Eq, Structural)]
pub enum ConfigError {
    /// A required variable is not set.
    Missing(Variable),
    /// A variable is not a number.
    InvalidNumber(Variable),
    /// A variable is not a port.
    InvalidPort(Variable),
    /// An entry of the software is not a name, a version and a path.
    InvalidSoftware,
    /// An entry of the prices is not a mint, a price and a unit.
    InvalidPrice,
    /// A price is not a positive integer.
    PriceNotPositive,
}

/// What an error says.
pub open spec fn config_error_text(e: ConfigError) -> Seq<char> {
    match e {
        ConfigError::Missing(v) => variable_name(v) + " environment variable is required"@,
        ConfigError::InvalidNumber(v) => variable_name(v) + " must be a valid number"@,
        ConfigError::InvalidPort(v) => variable_name(v) + " must be a valid port number"@,
        ConfigError::InvalidSoftware =>
            "WORKER_SOFTWARE entries must have the form name:version:path"@,
        ConfigError::InvalidPrice =>
            "WORKER_PRICES entries must have the form mint_url:price_per_second:unit"@,
        ConfigError::PriceNotPositive =>
            "WORKER_PRICES price_per_second must be a positive integer"@,
    }
}

impl ConfigError {
    /// The error in words.
    pub fn message(&self) -> (r: String)
        ensures
            r@ == config_error_text(*self),
    {
        match self {
            ConfigError::Missing(v) => {
                let mut r: String = v.name().to_string();
                r.append(" environment variable is required");
                r
            },
            ConfigError::InvalidNumber(v) => {
                let mut r: String = v.name().to_string();
                r.append(" must be a valid number");
                r
            },
            ConfigError::InvalidPort(v) => {
                let mut r: String = v.name().to_string();
                r.append(" must be a valid port number");
                r
            },
            ConfigError::InvalidSoftware =>
                "WORKER_SOFTWARE entries must have the form name:version:path".to_string(),
            ConfigError::InvalidPrice =>
                "WORKER_PRICES entries must have the form mint_url:price_per_second:unit".to_string(),
            ConfigError::PriceNotPositive =>
                "WORKER_PRICES price_per_second must be a positive integer".to_string(),
        }
    }
}

// ---------------------------------------------------------------------------------------------
// Entries
// ---------------------------------------------------------------------------------------------

/// Three fields of an entry.
pub struct Fields {
    pub first: Seq<char>,
    pub second: Seq<char>,
    pub third: Seq<char>,
}

/// The fields of a software entry `name:version:path`, none of them empty; the path may have colons.
pub open spec fn software_fields(e: Seq<char>) -> Option<Fields> {
    let p = text::position(e, CharClass::Colon) as int;
    let rest = e.skip(p + 1);
    let q = text::position(rest, CharClass::Colon) as int;
    if 0 < p < e.len() && 0 < q < rest.len() && q + 1 < rest.len() {
        Some(Fields { first: e.take(p), second: rest.take(q), third: rest.skip(q + 1) })
    } else {
        None
    }
}

/// The fields of a price entry `mint_url:price_per_second:unit`, none of them empty; the mint may
/// have colons.
pub open spec fn price_fields(e: Seq<char>) -> Option<Fields> {
    let q = text::last_position(e, CharClass::Colon);
    let head = e.take(q);
    let p = text::last_position(head, CharClass::Colon);
    if 0 < q && q + 1 < e.len() && 0 < p && p + 1 < head.len() {
        Some(Fields { first: head.take(p), second: head.skip(p + 1), third: e.skip(q + 1) })
    } else {
        None
    }
}

/// Whether every entry is a software entry.
pub open spec fn are_software(entries: Seq<Seq<char>>) -> bool {
    forall|i: int| 0 <= i < entries.len() ==> software_fields(#[trigger] entries[i]) is Some
}

/// Whether every entry is a price entry.
pub open spec fn are_prices(entries: Seq<Seq<char>>) -> bool {
    forall|i: int| 0 <= i < entries.len() ==> price_fields(#[trigger] entries[i]) is Some
}

/// Whether a text writes down a positive number of 64 bits.
pub open spec fn is_positive(s: Seq<char>) -> bool {
    number::parse_up_to(s, u64::MAX as nat) matches Some(n) && n > 0
}

/// Whether the price of every entry is a positive number.
pub open spec fn prices_are_positive(entries: Seq<Seq<char>>) -> bool {
    forall|i: int|
        0 <= i < entries.len() ==> (price_fields(#[trigger] entries[i]) matches Some(f)
            && is_positive(f.second))
}

/// Whether a piece of software is what an entry says.
pub open spec fn is_software_entry(s: WorkerSoftware, e: Seq<char>) -> bool {
    software_fields(e) == Some(Fields { first: s.name@, second: s.version@, third: s.path@ })
}

/// Whether a price is what an entry says.
pub open spec fn is_price_entry(p: WorkerPrice, e: Seq<char>) -> bool {
    price_fields(e) == Some(
        Fields { first: p.mint_url@, second: p.price_per_second@, third: p.unit@ },
    )
}

fn parse_software(entry: &str) -> (r: Option<WorkerSoftware>)
    ensures
        r is Some <==> software_fields(entry@) is Some,
        r matches Some(s) ==> is_software_entry(s, entry@),
{
    let p: usize = match find_class(entry, CharClass::Colon) {
        Some(p) => p,
        None => {
            return None;
        },
    };
    let rest = search::text_after(entry, p + 1);
    let q: usize = match find_class(rest.as_str(), CharClass::Colon) {
        Some(q) => q,
        None => {
            return None;
        },
    };
    if p == 0 || q == 0 {
        return None;
    }
    let name = search::subtext(entry, 0, p);
    let version = search::subtext(rest.as_str(), 0, q);
    let path = search::text_after(rest.as_str(), q + 1);
    if path.as_str().is_empty() {
        return None;
    }
    assert(name@ =~= entry@.take(p as int));
    assert(version@ =~= rest@.take(q as int));
    Some(WorkerSoftware { name, version, path })
}

fn parse_price(entry: &str) -> (r: Option<WorkerPrice>)
    ensures
        r is Some <==> price_fields(entry@) is Some,
        r matches Some(p) ==> is_price_entry(p, entry@),
{
    let q: usize = match find_last_class(entry, CharClass::Colon) {
        Some(q) => q,
        None => {
            return None;
        },
    };
    let head = search::subtext(entry, 0, q);
    assert(head@ =~= entry@.take(q as int));
    let p: usize = match find_last_class(head.as_str(), CharClass::Colon) {
        Some(p) => p,
        None => {
            return None;
        },
    };
    let mint_url = search::subtext(head.as_str(), 0, p);
    let price_per_second = search::text_after(head.as_str(), p + 1);
    let unit = search::text_after(entry, q + 1);
    if p == 0 || price_per_second.as_str().is_empty() || unit.as_str().is_empty() {
        return None;
    }
    assert(mint_url@ =~= head@.take(p as int));
    Some(WorkerPrice { mint_url, price_per_second, unit })
}

fn parse_software_list(value: &str) -> (r: Option<Vec<WorkerSoftware>>)
    ensures
        r is Some <==> are_software(text::csv_entries(value@)),
        r matches Some(v) ==> v@.len() == text::csv_entries(value@).len() && forall|i: int|
            0 <= i < v@.len() ==> is_software_entry(
                #[trigger] v@[i],
                text::csv_entries(value@)[i],
            ),
{
    let entries = split_csv(value);
    let ghost views = text::csv_entries(value@);
    let mut v: Vec<WorkerSoftware> = Vec::new();
    let mut i: usize = 0;
    while i < entries.len()
        invariant
            i <= entries@.len(),
            entries.deep_view() == views,
            views == text::csv_entries(value@),
            v@.len() == i,
            forall|j: int| 0 <= j < i ==> is_software_entry(#[trigger] v@[j], views[j]),
        decreases entries.len() - i,
    {
        assert(views[i as int] == entries@[i as int]@);
        match parse_software(entries[i].as_str()) {
            Some(s) => {
                v.push(s);
            },
            None => {
                assert(software_fields(views[i as int]) is None);
                return None;
            },
        }
        i = i + 1;
    }
    assert(are_software(views)) by {
        assert forall|j: int| 0 <= j < views.len() implies software_fields(
            #[trigger] views[j],
        ) is Some by {
            assert(is_software_entry(v@[j], views[j]));
        }
    }
    Some(v)
}

fn parse_price_list(value: &str) -> (r: Option<Vec<WorkerPrice>>)
    ensures
        r is Some <==> are_prices(text::csv_entries(value@)),
        r matches Some(v) ==> v@.len() == text::csv_entries(value@).len() && forall|i: int|
            0 <= i < v@.len() ==> is_price_entry(#[trigger] v@[i], text::csv_entries(value@)[i]),
{
    let entries = split_csv(value);
    let ghost views = text::csv_entries(value@);
    let mut v: Vec<WorkerPrice> = Vec::new();
    let mut i: usize = 0;
    while i < entries.len()
        invariant
            i <= entries@.len(),
            entries.deep_view() == views,
            views == text::csv_entries(value@),
            v@.len() == i,
            forall|j: int| 0 <= j < i ==> is_price_entry(#[trigger] v@[j], views[j]),
        decreases entries.len() - i,
    {
        assert(views[i as int] == entries@[i as int]@);
        match parse_price(entries[i].as_str()) {
            Some(p) => {
                v.push(p);
            },
            None => {
                assert(price_fields(views[i as int]) is None);
                return None;
            },
        }
        i = i + 1;
    }
    assert(are_prices(views)) by {
        assert forall|j: int| 0 <= j < views.len() implies price_fields(
            #[trigger] views[j],
        ) is Some by {
            assert(is_price_entry(v@[j], views[j]));
        }
    }
    Some(v)
}

fn test_positive_prices(v: &Vec<WorkerPrice>) -> (r: bool)
    ensures
        r <==> forall|i: int|
            0 <= i < v@.len() ==> is_positive((#[trigger] v@[i]).price_per_second@),
{
    let mut i: usize = 0;
    while i < v.len()
        invariant
            i <= v@.len(),
            forall|j: int| 0 <= j < i ==> is_positive((#[trigger] v@[j]).price_per_second@),
        decreases v.len() - i,
    {
        let positive: bool = match parse_u64(v[i].price_per_second.as_str()) {
            Some(n) => n > 0,
            None => false,
        };
        if !positive {
            assert(!is_positive(v@[i as int].price_per_second@));
            return false;
        }
        i = i + 1;
    }
    true
}

// ---------------------------------------------------------------------------------------------
// Configuration
// ---------------------------------------------------------------------------------------------

/// The first thing that keeps the environment from being a configuration.
pub open spec fn config_problem(env: Seq<(String, String)>) -> Option<ConfigError> {
    if setting(env, Variable::NostrRelays) is None {
        Some(ConfigError::Missing(Variable::NostrRelays))
    } else if setting(env, Variable::WorkerSoftware) is None {
        Some(ConfigError::Missing(Variable::WorkerSoftware))
    } else if !are_software(text::csv_entries(setting(env, Variable::WorkerSoftware)->0)) {
        Some(ConfigError::InvalidSoftware)
    } else if setting(env, Variable::WorkerPrices) is None {
        Some(ConfigError::Missing(Variable::WorkerPrices))
    } else if !are_prices(text::csv_entries(setting(env, Variable::WorkerPrices)->0)) {
        Some(ConfigError::InvalidPrice)
    } else if !prices_are_positive(text::csv_entries(setting(env, Variable::WorkerPrices)->0)) {
        Some(ConfigError::PriceNotPositive)
    } else if number_setting(env, Variable::MaxConcurrent, 7, usize::MAX as nat) is None {
        Some(ConfigError::InvalidNumber(Variable::MaxConcurrent))
    } else if number_setting(env, Variable::PollInterval, 10, u64::MAX as nat) is None {
        Some(ConfigError::InvalidNumber(Variable::PollInterval))
    } else if number_setting(env, Variable::JobTimeout, 7200, u64::MAX as nat) is None {
        Some(ConfigError::InvalidNumber(Variable::JobTimeout))
    } else if number_setting(env, Variable::AdvertiseInterval, 300, u64::MAX as nat) is None {
        Some(ConfigError::InvalidNumber(Variable::AdvertiseInterval))
    } else if number_setting(env, Variable::WorkerMinDuration, 5, u64::MAX as nat) is None {
        Some(ConfigError::InvalidNumber(Variable::WorkerMinDuration))
    } else if number_setting(env, Variable::WorkerMaxDuration, 120, u64::MAX as nat) is None {
        Some(ConfigError::InvalidNumber(Variable::WorkerMaxDuration))
    } else if number_setting(env, Variable::WorkerMaxConcurrentJobs, 1, u64::MAX as nat) is None {
        Some(ConfigError::InvalidNumber(Variable::WorkerMaxConcurrentJobs))
    } else if number_setting(env, Variable::WorkerHttpPort, 8081, u16::MAX as nat) is None {
        Some(ConfigError::InvalidPort(Variable::WorkerHttpPort))
    } else if number_setting(env, Variable::HttpPort, 8080, u16::MAX as nat) is None {
        Some(ConfigError::InvalidPort(Variable::HttpPort))
    } else {
        None
    }
}

/// Whether the lists of a configuration are those of the environment.
pub open spec fn lists_match(c: Config, env: Seq<(String, String)>) -> bool {
    let software = text::csv_entries(setting(env, Variable::WorkerSoftware)->0);
    let prices = text::csv_entries(setting(env, Variable::WorkerPrices)->0);
    &&& c.relays.deep_view() == text::csv_entries(setting(env, Variable::NostrRelays)->0)
    &&& c.worker_software@.len() == software.len()
    &&& forall|i: int|
        0 <= i < software.len() ==> is_software_entry(#[trigger] c.worker_software@[i], software[i])
    &&& c.worker_prices@.len() == prices.len()
    &&& forall|i: int|
        0 <= i < prices.len() ==> is_price_entry(#[trigger] c.worker_prices@[i], prices[i])
    &&& c.blossom_servers.deep_view() == text::csv_entries(
        setting_or(env, Variable::BlossomServers, ""@),
    )
    &&& c.cashu_mints.deep_view() == text::csv_entries(setting_or(env, Variable::CashuMints, ""@))
}

/// Whether the numbers of a configuration are those of the environment.
pub open spec fn numbers_match(c: Config, env: Seq<(String, String)>) -> bool {
    &&& number_setting(env, Variable::MaxConcurrent, 7, usize::MAX as nat) == Some(
        c.max_concurrent_jobs as nat,
    )
    &&& c.poll_interval == clock::duration_of_secs(
        number_setting(env, Variable::PollInterval, 10, u64::MAX as nat)->0 as u64,
    )
    &&& c.job_timeout == clock::duration_of_secs(
        number_setting(env, Variable::JobTimeout, 7200, u64::MAX as nat)->0 as u64,
    )
    &&& c.advertise_interval == clock::duration_of_secs(
        number_setting(env, Variable::AdvertiseInterval, 300, u64::MAX as nat)->0 as u64,
    )
    &&& number_setting(env, Variable::WorkerMinDuration, 5, u64::MAX as nat) == Some(
        c.worker_min_duration as nat,
    )
    &&& number_setting(env, Variable::WorkerMaxDuration, 120, u64::MAX as nat) == Some(
        c.worker_max_duration as nat,
    )
    &&& number_setting(env, Variable::WorkerMaxConcurrentJobs, 1, u64::MAX as nat) == Some(
        c.worker_max_concurrent_jobs as nat,
    )
    &&& number_setting(env, Variable::WorkerHttpPort, 8081, u16::MAX as nat) == Some(
        c.worker_http_port as nat,
    )
    &&& number_setting(env, Variable::HttpPort, 8080, u16::MAX as nat) == Some(
        c.http_port as nat,
    )
}

/// Whether the texts of a configuration are those of the environment.
pub open spec fn texts_match(c: Config, env: Seq<(String, String)>) -> bool {
    &&& c.worker_name@ == setting_or(env, Variable::WorkerName, "loom-worker"@)
    &&& c.worker_description@ == setting_or(env, Variable::WorkerDescription, "Loom worker"@)
    &&& c.worker_architecture@ == setting_or(env, Variable::WorkerArchitecture, "x86_64"@)
    &&& c.worker_default_shell@ == setting_or(env, Variable::WorkerDefaultShell, "/bin/bash"@)
    &&& c.worker_service_name@ == setting_or(
        env,
        Variable::WorkerServiceName,
        "hive-worker.service"@,
    )
    &&& c.worker_act_path@ == setting_or(env, Variable::WorkerActPath, "/bin/act"@)
    &&& c.worker_ngit_path@ == setting_or(env, Variable::WorkerNgitPath, "/usr/local/bin/ngit"@)
    &&& c.worker_git_remote_nostr_path@ == setting_or(
        env,
        Variable::WorkerGitRemoteNostrPath,
        "/usr/local/bin/git-remote-nostr"@,
    )
    &&& c.worker_work_dir@ == setting_or(
        env,
        Variable::WorkerWorkDir,
        "/var/lib/loom-worker/work"@,
    )
    &&& c.state_dir@ == setting_or(env, Variable::StateDir, "/var/lib/runner-controller"@)
    &&& c.cdk_cli_path@ == setting_or(env, Variable::CdkCliPath, "cdk-cli"@)
    &&& c.cdk_engine@ == setting_or(env, Variable::CdkEngine, "redb"@)
    &&& c.nixos_container_bin@ == setting_or(env, Variable::NixosContainerBin, "nixos-container"@)
    &&& c.http_addr@ == setting_or(env, Variable::HttpAddr, "127.0.0.1"@)
    &&& text::optional(c.worker_geohash) == setting(env, Variable::WorkerGeohash)
    &&& c.cdk_work_dir@ == setting_or(
        env,
        Variable::CdkWorkDir,
        paths::joined_path(c.state_dir@, "cdk-cli"@),
    )
}

/// Whether `c` is the configuration that the environment gives.
pub open spec fn is_config_of(c: Config, env: Seq<(String, String)>) -> bool {
    &&& config_problem(env) is None
    &&& lists_match(c, env)
    &&& numbers_match(c, env)
    &&& texts_match(c, env)
}

/// Prices are positive where those of their entries are.
proof fn lemma_positive_entries(prices: Seq<WorkerPrice>, entries: Seq<Seq<char>>)
    requires
        prices.len() == entries.len(),
        forall|i: int| 0 <= i < prices.len() ==> is_price_entry(#[trigger] prices[i], entries[i]),
    ensures
        prices_are_positive(entries) <==> forall|i: int|
            0 <= i < prices.len() ==> is_positive((#[trigger] prices[i]).price_per_second@),
{
    if prices_are_positive(entries) {
        assert forall|i: int| 0 <= i < prices.len() implies is_positive(
            (#[trigger] prices[i]).price_per_second@,
        ) by {
            assert(is_price_entry(prices[i], entries[i]));
            assert(price_fields(entries[i]) is Some);
        }
    }
    if forall|i: int|
        0 <= i < prices.len() ==> is_positive((#[trigger] prices[i]).price_per_second@) {
        assert forall|i: int| 0 <= i < entries.len() implies (price_fields(
            #[trigger] entries[i],
        ) matches Some(f) && is_positive(f.second)) by {
            assert(is_price_entry(prices[i], entries[i]));
        }
    }
}

/// The template that containers are made of.
pub fn container_template(env: &Vec<(String, String)>) -> (r: String)
    ensures
        r@ == setting_or(
            env@,
            Variable::ContainerTemplate,
            "/etc/nixos/ci-container-template.nix"@,
        ),
{
    lookup_or(env, Variable::ContainerTemplate, "/etc/nixos/ci-container-template.nix")
}

impl Config {
    /// Makes a configuration of the environment, given as names and values.
    pub fn from_env(env: &Vec<(String, String)>) -> (r: Result<Config, ConfigError>)
        ensures
            match r {
                Ok(c) => is_config_of(c, env@),
                Err(e) => config_problem(env@) == Some(e),
            },
    {
        let relays = match lookup(env, Variable::NostrRelays) {
            Some(s) => split_csv(s.as_str()),
            None => {
                return Err(ConfigError::Missing(Variable::NostrRelays));
            },
        };
        let worker_software = match lookup(env, Variable::WorkerSoftware) {
            Some(s) => match parse_software_list(s.as_str()) {
                Some(v) => v,
                None => {
                    return Err(ConfigError::InvalidSoftware);
                },
            },
            None => {
                return Err(ConfigError::Missing(Variable::WorkerSoftware));
            },
        };
        let worker_prices = match lookup(env, Variable::WorkerPrices) {
            Some(s) => match parse_price_list(s.as_str()) {
                Some(v) => v,
                None => {
                    return Err(ConfigError::InvalidPrice);
                },
            },
            None => {
                return Err(ConfigError::Missing(Variable::WorkerPrices));
            },
        };
        proof {
            let entries = text::csv_entries(setting(env@, Variable::WorkerPrices)->0);
            lemma_positive_entries(worker_prices@, entries);
        }
        if !test_positive_prices(&worker_prices) {
            return Err(ConfigError::PriceNotPositive);
        }
        let max_concurrent_jobs: usize = match lookup_usize(env, Variable::MaxConcurrent, 7) {
            Some(n) => n,
            None => {
                return Err(ConfigError::InvalidNumber(Variable::MaxConcurrent));
            },
        };
        let poll_interval: u64 = match lookup_u64(env, Variable::PollInterval, 10) {
            Some(n) => n,
            None => {
                return Err(ConfigError::InvalidNumber(Variable::PollInterval));
            },
        };
        let job_timeout: u64 = match lookup_u64(env, Variable::JobTimeout, 7200) {
            Some(n) => n,
            None => {
                return Err(ConfigError::InvalidNumber(Variable::JobTimeout));
            },
        };
        let advertise_interval: u64 = match lookup_u64(env, Variable::AdvertiseInterval, 300) {
            Some(n) => n,
            None => {
                return Err(ConfigError::InvalidNumber(Variable::AdvertiseInterval));
            },
        };
        let worker_min_duration: u64 = match lookup_u64(env, Variable::WorkerMinDuration, 5) {
            Some(n) => n,
            None => {
                return Err(ConfigError::InvalidNumber(Variable::WorkerMinDuration));
            },
        };
        let worker_max_duration: u64 = match lookup_u64(env, Variable::WorkerMaxDuration, 120) {
            Some(n) => n,
            None => {
                return Err(ConfigError::InvalidNumber(Variable::WorkerMaxDuration));
            },
        };
        let worker_max_concurrent_jobs: u64 = match lookup_u64(
            env,
            Variable::WorkerMaxConcurrentJobs,
            1,
        ) {
            Some(n) => n,
            None => {
                return Err(ConfigError::InvalidNumber(Variable::WorkerMaxConcurrentJobs));
            },
        };
        let worker_http_port: u16 = match lookup_u16(env, Variable::WorkerHttpPort, 8081) {
            Some(n) => n,
            None => {
                return Err(ConfigError::InvalidPort(Variable::WorkerHttpPort));
            },
        };
        let http_port: u16 = match lookup_u16(env, Variable::HttpPort, 8080) {
            Some(n) => n,
            None => {
                return Err(ConfigError::InvalidPort(Variable::HttpPort));
            },
        };
        let state_dir = lookup_or(env, Variable::StateDir, "/var/lib/runner-controller");
        let default_work_dir = join_path(state_dir.as_str(), "cdk-cli");
        let cdk_work_dir = lookup_or(env, Variable::CdkWorkDir, default_work_dir.as_str());
        let blossom_servers = lookup_or(env, Variable::BlossomServers, "");
        let cashu_mints = lookup_or(env, Variable::CashuMints, "");
        Ok(
            Config {
                relays,
                worker_software,
                worker_prices,
                worker_geohash: lookup(env, Variable::WorkerGeohash),
                blossom_servers: split_csv(blossom_servers.as_str()),
                cashu_mints: split_csv(cashu_mints.as_str()),
                max_concurrent_jobs,
                poll_interval: Duration::from_secs(poll_interval),
                job_timeout: Duration::from_secs(job_timeout),
                advertise_interval: Duration::from_secs(advertise_interval),
                worker_min_duration,
                worker_max_duration,
                worker_max_concurrent_jobs,
                worker_http_port,
                http_port,
                state_dir,
                cdk_work_dir,
                worker_name: lookup_or(env, Variable::WorkerName, "loom-worker"),
                worker_description: lookup_or(env, Variable::WorkerDescription, "Loom worker"),
                worker_architecture: lookup_or(env, Variable::WorkerArchitecture, "x86_64"),
                worker_default_shell: lookup_or(env, Variable::WorkerDefaultShell, "/bin/bash"),
                worker_service_name: lookup_or(
                    env,
                    Variable::WorkerServiceName,
                    "hive-worker.service",
                ),
                worker_act_path: lookup_or(env, Variable::WorkerActPath, "/bin/act"),
                worker_ngit_path: lookup_or(env, Variable::WorkerNgitPath, "/usr/local/bin/ngit"),
                worker_git_remote_nostr_path: lookup_or(
                    env,
                    Variable::WorkerGitRemoteNostrPath,
                    "/usr/local/bin/git-remote-nostr",
                ),
                worker_work_dir: lookup_or(
                    env,
                    Variable::WorkerWorkDir,
                    "/var/lib/loom-worker/work",
                ),
                cdk_cli_path: lookup_or(env, Variable::CdkCliPath, "cdk-cli"),
                cdk_engine: lookup_or(env, Variable::CdkEngine, "redb"),
                nixos_container_bin: lookup_or(env, Variable::NixosContainerBin, "nixos-container"),
                http_addr: lookup_or(env, Variable::HttpAddr, "127.0.0.1"),
            },
        )
    }
}

// ---------------------------------------------------------------------------------------------
// GitHub
// ---------------------------------------------------------------------------------------------

/// What the controller is told about GitHub runners.
#[derive(Debug)]
pub struct GitHubConfig {
    pub github_repo: String,
    pub github_token: String,
    pub runner_startup_timeout: Duration,
    pub runner_labels: Vec<String>,
}

/// Why the environment says nothing usable about GitHub runners.
#[derive(Debug, PartialEq, Eq)]
pub enum GitHubConfigError {
    Config(ConfigError),
    /// The file with the token could not be read.
    UnreadableToken { path: String },
}

/// What an error says.
pub open spec fn github_config_error_text(e: GitHubConfigError) -> Seq<char> {
    match e {
        GitHubConfigError::Config(c) => config_error_text(c),
        GitHubConfigError::UnreadableToken { path } => "Failed to read GitHub token from "@ + path@,
    }
}

impl GitHubConfigError {
    /// The error in words.
    pub fn message(&self) -> (r: String)
        ensures
            r@ == github_config_error_text(*self),
    {
        match self {
            GitHubConfigError::Config(c) => c.message(),
            GitHubConfigError::UnreadableToken { path } => {
                let mut r: String = "Failed to read GitHub token from ".to_string();
                r.append(path.as_str());
                r
            },
        }
    }
}

impl GitHubConfig {
    /// Makes a configuration of the environment. `token` is what the file with the token holds,
    /// where it could be read.
    pub fn from_env(env: &Vec<(String, String)>, token: Option<&str>) -> (r: Result<
        GitHubConfig,
        GitHubConfigError,
    >)
        ensures
            ({
                let repo = setting(env@, Variable::GitHubRepo);
                let file = setting(env@, Variable::GitHubTokenFile);
                let timeout = number_setting(
                    env@,
                    Variable::RunnerStartupTimeout,
                    600,
                    u64::MAX as nat,
                );
                match r {
                    Ok(c) => {
                        &&& repo == Some(c.github_repo@)
                        &&& file is Some
                        &&& token matches Some(t) && c.github_token@ == text::trim_spec(t@)
                        &&& timeout matches Some(n) && c.runner_startup_timeout
                            == clock::duration_of_secs(n as u64)
                        &&& c.runner_labels.deep_view() == text::csv_entries(
                            setting_or(
                                env@,
                                Variable::RunnerLabels,
                                "self-hosted,ci,nix,x64,Linux"@,
                            ),
                        )
                    },
                    Err(GitHubConfigError::Config(ConfigError::Missing(v))) => {
                        ||| v == Variable::GitHubRepo && repo is None
                        ||| v == Variable::GitHubTokenFile && repo is Some && file is None
                    },
                    Err(GitHubConfigError::UnreadableToken { path }) => repo is Some && file
                        == Some(path@) && token is None,
                    Err(GitHubConfigError::Config(ConfigError::InvalidNumber(v))) => {
                        &&& v == Variable::RunnerStartupTimeout
                        &&& repo is Some && file is Some && token is Some && timeout is None
                    },
                    Err(_) => false,
                }
            }),
    {
        let github_repo = match lookup(env, Variable::GitHubRepo) {
            Some(s) => s,
            None => {
                return Err(
                    GitHubConfigError::Config(ConfigError::Missing(Variable::GitHubRepo)),
                );
            },
        };
        let path = match lookup(env, Variable::GitHubTokenFile) {
            Some(s) => s,
            None => {
                return Err(
                    GitHubConfigError::Config(ConfigError::Missing(Variable::GitHubTokenFile)),
                );
            },
        };
        let github_token = match token {
            Some(t) => trim(t),
            None => {
                return Err(GitHubConfigError::UnreadableToken { path });
            },
        };
        let seconds: u64 = match lookup_u64(env, Variable::RunnerStartupTimeout, 600) {
            Some(n) => n,
            None => {
                return Err(
                    GitHubConfigError::Config(
                        ConfigError::InvalidNumber(Variable::RunnerStartupTimeout),
                    ),
                );
            },
        };
        let labels = lookup_or(env, Variable::RunnerLabels, "self-hosted,ci,nix,x64,Linux");
        Ok(
            GitHubConfig {
                github_repo,
                github_token,
                runner_startup_timeout: Duration::from_secs(seconds),
                runner_labels: split_csv(labels.as_str()),
            },
        )
    }
}

/// A configured price tells its mint, its price and its unit: none of them is empty, and the price is
/// a positive number.
pub proof fn lemma_prices_are_complete(c: Config, env: Seq<(String, String)>, i: int)
    requires
        is_config_of(c, env),
        0 <= i < c.worker_prices@.len(),
    ensures
        c.worker_prices@[i].mint_url@.len() > 0,
        c.worker_prices@[i].price_per_second@.len() > 0,
        c.worker_prices@[i].unit@.len() > 0,
        is_positive(c.worker_prices@[i].price_per_second@),
{
    let prices = text::csv_entries(setting(env, Variable::WorkerPrices)->0);
    assert(is_price_entry(c.worker_prices@[i], prices[i]));
    assert(price_fields(prices[i]) is Some);
}

/// Putting a price together and taking it apart gives the price back, as long as neither the price
/// nor the unit has a colon.
pub proof fn lemma_price_entries_read_back(
    mint_url: Seq<char>,
    price: Seq<char>,
    unit: Seq<char>,
)
    requires
        mint_url.len() > 0,
        price.len() > 0,
        unit.len() > 0,
        !price.contains(':'),
        !unit.contains(':'),
    ensures
        price_fields(mint_url.push(':') + price.push(':') + unit) == Some(
            Fields { first: mint_url, second: price, third: unit },
        ),
{
    let e = mint_url.push(':') + price.push(':') + unit;
    let q = (mint_url.len() + 1 + price.len()) as int;
    let head = e.take(q);
    assert(head =~= mint_url.push(':') + price);
    lemma_last_colon(head, price, mint_url);
    assert(e =~= head.push(':') + unit);
    lemma_last_colon(e, unit, head);
    assert(head.take(mint_url.len() as int) =~= mint_url);
    assert(head.skip((mint_url.len() + 1) as int) =~= price);
    assert(e.skip(q + 1) =~= unit);
}

proof fn lemma_last_colon(s: Seq<char>, tail: Seq<char>, head: Seq<char>)
    requires
        s == head.push(':') + tail,
        !tail.contains(':'),
    ensures
        text::last_position(s, CharClass::Colon) == head.len(),
    decreases tail.len(),
{
    if tail.len() > 0 {
        assert(s.last() == tail.last());
        assert(tail.last() != ':') by {
            if tail.last() == ':' {
                assert(tail[tail.len() - 1] == ':');
            }
        }
        let t = tail.drop_last();
        assert(!t.contains(':')) by {
            if t.contains(':') {
                let i = choose|i: int| 0 <= i < t.len() && t[i] == ':';
                assert(tail[i] == ':');
            }
        }
        assert(s.drop_last() =~= head.push(':') + t);
        lemma_last_colon(s.drop_last(), t, head);
    } else {
        assert(s =~= head.push(':'));
    }
}

} // verus!
