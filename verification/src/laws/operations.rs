//! Laws on what the operations return, over all that goes into them.

use core::time::Duration;
use vstd::prelude::*;

use crate::clock;
use crate::config;
use crate::config::{Config, ConfigError, GitHubConfig, GitHubConfigError, Variable, WorkerPrice};
use crate::container;
use crate::container::{ContainerCleanup, ContainerError, ContainerManager, ContainerOutcome};
use crate::event;
use crate::event::Event;
use crate::github::client;
use crate::github::client::GitHubClient;
use crate::github::types::Runner;
use crate::http;
use crate::http::StatusResponse;
use crate::jobs;
use crate::jobs::{
    ActCommand, GitCloneCommand, JobError, WorkerExecutionSettings, WorkerJobRequest,
};
use crate::laws::github;
use crate::laws::messages;
use crate::laws::requests;
use crate::laws::runtime;
use crate::laws::settings;
use crate::laws::texts;
use crate::listener;
use crate::listener::PoolController;
use crate::loom;
use crate::loom::{LoadedPool, LoomError, WorkerIdentity, WorkerKeyStore, WorkerRuntimeConfig};
use crate::number;
use crate::payments;
use crate::payments::{BillingOutcome, PaymentAuthorization, PaymentClient, PaymentError, WalletCommand};
use crate::post_job;
use crate::post_job::{JobPosting, PostError};
use crate::search;
use crate::state::ContainerState;
use crate::text;
use crate::wallet_output;
use crate::wallet_output::{BalanceEntry, TokenMetadata};

verus! {

// ---------------------------------------------------------------------------------------------
// Configuration
// ---------------------------------------------------------------------------------------------

/// The environment gives a configuration, or the first thing that is wrong with it.
pub proof fn lemma_configurations(env: &Vec<(String, String)>, r: Result<Config, ConfigError>)
    requires
        call_ensures(Config::from_env, (env,), r),
    ensures
        r matches Ok(c) ==> config::is_config_of(c, env@),
        r matches Err(e) ==> config::config_problem(env@) == Some(e),
        settings::is_silent(env@, "NOSTR_RELAYS"@) || settings::is_silent(
            env@,
            "WORKER_SOFTWARE"@,
        ) || settings::is_silent(env@, "WORKER_PRICES"@) ==> r is Err,
{
    settings::lemma_required_settings(env@);
}

/// GitHub runners need a repository and a file with a token, which is taken without the white space
/// around it. A runner that has not started after a time, which is ten minutes unless set, is given up,
/// and the labels are a list.
pub proof fn lemma_github_configurations(
    env: &Vec<(String, String)>,
    token: Option<&str>,
    r: Result<GitHubConfig, GitHubConfigError>,
)
    requires
        call_ensures(GitHubConfig::from_env, (env, token), r),
    ensures
        settings::is_silent(env@, "GITHUB_REPO"@) ==> r == Err::<GitHubConfig, GitHubConfigError>(
            GitHubConfigError::Config(ConfigError::Missing(Variable::GitHubRepo)),
        ),
        settings::is_silent(env@, "GITHUB_TOKEN_FILE"@) ==> r is Err,
        token is None ==> r is Err,
        r matches Ok(c) ==> {
            &&& settings::says(env@, "GITHUB_REPO"@, c.github_repo@)
            &&& token matches Some(t) && c.github_token@ == text::trim_spec(t@)
            &&& settings::is_silent(env@, "RUNNER_STARTUP_TIMEOUT"@) ==> c.runner_startup_timeout
                == clock::duration_of_secs(600)
            &&& forall|n: u64| #[trigger]
                settings::says(env@, "RUNNER_STARTUP_TIMEOUT"@, number::decimal(n as nat))
                    ==> c.runner_startup_timeout == clock::duration_of_secs(n)
            &&& forall|s: Seq<char>| #[trigger]
                settings::says(env@, "RUNNER_LABELS"@, s) ==> c.runner_labels.deep_view()
                    == text::csv_entries(s)
            &&& settings::is_silent(env@, "RUNNER_LABELS"@) ==> c.runner_labels.deep_view()
                == text::csv_entries("self-hosted,ci,nix,x64,Linux"@)
        },
{
    settings::lemma_settings_are_found(env@, Variable::GitHubRepo);
    settings::lemma_settings_are_found(env@, Variable::GitHubTokenFile);
    settings::lemma_settings_are_found(env@, Variable::RunnerStartupTimeout);
    settings::lemma_settings_are_found(env@, Variable::RunnerLabels);
    if let Ok(c) = r {
        assert forall|n: u64| #[trigger]
            settings::says(
                env@,
                "RUNNER_STARTUP_TIMEOUT"@,
                number::decimal(n as nat),
            ) implies c.runner_startup_timeout == clock::duration_of_secs(n) by {
            texts::lemma_decimals_read_back(n as nat, u64::MAX as nat);
        }
    }
}

/// The template of the containers and the name of the host have defaults. The name is that of the
/// environment, or else that of the file without the white space around it.
pub proof fn lemma_defaults(
    env: &Vec<(String, String)>,
    template: String,
    variable: Option<&str>,
    file: Option<&str>,
    name: String,
)
    requires
        call_ensures(config::container_template, (env,), template),
        call_ensures(container::hostname, (variable, file), name),
    ensures
        settings::gives(
            env@,
            "CONTAINER_TEMPLATE"@,
            "/etc/nixos/ci-container-template.nix"@,
            template@,
        ),
        variable matches Some(v) ==> name@ == v@,
        variable is None ==> (file matches Some(f) ==> name@ == text::trim_spec(f@)),
        variable is None && file is None ==> name@ == "runner"@,
{
    settings::lemma_settings_are_found(env@, Variable::ContainerTemplate);
}

/// Workers are told what is configured.
pub proof fn lemma_workers_are_told_what_is_configured(c: &Config, r: WorkerRuntimeConfig)
    requires
        call_ensures(WorkerRuntimeConfig::from_config, (c,), r),
    ensures
        r.relays@ == c.relays@,
        r.software@ == c.worker_software@,
        r.prices@ == c.worker_prices@,
        r.min_duration == c.worker_min_duration,
        r.max_duration == c.worker_max_duration,
        r.act_path@ == c.worker_act_path@,
        r.ngit_path@ == c.worker_ngit_path@,
        r.git_remote_nostr_path@ == c.worker_git_remote_nostr_path@,
        r.work_dir@ == c.worker_work_dir@,
        r.timeout_seconds == clock::secs_of_duration(c.job_timeout),
        r.http_port == c.worker_http_port,
        r.default_shell@ == c.worker_default_shell@,
        r.blossom_servers@ == c.blossom_servers@,
        r.cashu_mints@ == c.cashu_mints@,
{
}

/// The status page has every remembered container, in order, and what is configured.
pub proof fn lemma_status_pages(
    c: &Config,
    remembered: Vec<(String, ContainerState)>,
    now: u64,
    uptime: u64,
    r: StatusResponse,
    i: int,
)
    requires
        call_ensures(http::status, (c, remembered, now, uptime), r),
    ensures
        r.pool_size == c.max_concurrent_jobs,
        r.active_containers == remembered@.len(),
        r.containers@.len() == remembered@.len(),
        0 <= i < remembered@.len() ==> ({
            let (name, state) = remembered@[i];
            let info = r.containers@[i];
            &&& info.name@ == name@
            &&& info.slot == state.slot
            &&& info.worker_pubkey@ == state.worker_pubkey@
            &&& info.advertised_at == state.advertised_at
            &&& state.started_at <= now ==> state.started_at + info.running_seconds == now
            &&& state.started_at > now ==> info.running_seconds == 0
        }),
        r.poll_interval_seconds == clock::secs_of_duration(c.poll_interval),
        r.job_timeout_seconds == clock::secs_of_duration(c.job_timeout),
        r.uptime_seconds == uptime,
        r.advertisement.relays@ == c.relays@,
        r.advertisement.software@ == c.worker_software@,
        r.advertisement.prices@ == c.worker_prices@,
        r.advertisement.min_duration == c.worker_min_duration,
        r.advertisement.max_duration == c.worker_max_duration,
        r.advertisement.advertise_interval_seconds == clock::secs_of_duration(
            c.advertise_interval,
        ),
{
    if 0 <= i < remembered@.len() {
        assert(http::shows(r.containers@[i], remembered@[i].0, remembered@[i].1, now));
    }
}

// ---------------------------------------------------------------------------------------------
// Jobs
// ---------------------------------------------------------------------------------------------

/// How a job is run and where its repository comes from: the workflow and the job are named, and the
/// reference is both what is fetched and what the workflow is told.
pub proof fn lemma_job_commands(
    s: &WorkerExecutionSettings,
    job: &WorkerJobRequest,
    destination: &str,
    act: ActCommand,
    git: GitCloneCommand,
)
    requires
        call_ensures(jobs::build_act_command, (s, job), act),
        call_ensures(jobs::build_git_clone_command, (job, destination), git),
    ensures
        act.program@ == s.act_path@,
        act.args.deep_view() == seq![job.event@, "-W"@, job.workflow@, "-j"@, job.job@],
        act.env@.len() == 2,
        act.env@[0].0@ == "GITHUB_REF"@ && act.env@[0].1@ == job.ref_@,
        act.env@[1].0@ == "GITHUB_SHA"@ && act.env@[1].1@ == job.ref_@,
        git.program@ == "git"@,
        git.args@.len() == 6,
        git.args@[0]@ == "clone"@,
        git.args@[1]@ == "--branch"@ && git.args@[2]@ == job.ref_@,
        git.args@[3]@ == "--single-branch"@,
        git.args@[4]@ == job.repo@,
        git.args@[5]@ == destination@,
{
    assert(git.args.deep_view().len() == git.args@.len());
    assert(forall|i: int| 0 <= i < git.args@.len() ==> git.args.deep_view()[i] == #[trigger] git.args@[i]@);
}

/// The payment of a request is the value of its one payment tag, without the white space around it.
pub proof fn lemma_payments_of_requests(e: &Event, r: Result<String, JobError>)
    requires
        call_ensures(jobs::extract_payment_token, (e,), r),
    ensures
        ({
            let values = jobs::payment_values(e.tags.deep_view());
            &&& values.len() != 1 ==> (r matches Err(JobError::PaymentTags))
            &&& values.len() == 1 && texts::is_white(values[0]) ==> (r matches Err(
                JobError::EmptyPayment,
            ))
            &&& values.len() == 1 && !texts::is_white(values[0]) ==> (r matches Ok(token) && token@
                == text::trim_spec(values[0]))
        }),
{
    let values = jobs::payment_values(e.tags.deep_view());
    if values.len() == 1 {
        requests::lemma_blank_texts(values[0]);
    }
}

/// A request is decoded by the worker that it names, and by no other: it has to be a request, to name
/// the worker, to be opened with the key of the worker, and to hold an acceptable job, which gets the
/// identifier of the request.
pub proof fn lemma_requests_are_decoded(
    worker: &WorkerIdentity,
    e: &Event,
    decoded: Option<WorkerJobRequest>,
    r: Result<WorkerJobRequest, JobError>,
)
    requires
        call_ensures(jobs::decode_job_event, (worker, e, decoded), r),
    ensures
        e.kind != 5100 ==> (r matches Err(JobError::WrongKind)),
        e.kind == 5100 && !requests::names_recipient(e.tags.deep_view(), worker.pubkey@) ==> (
        r matches Err(JobError::NotAddressed { pubkey }) && pubkey@ == worker.pubkey@),
        r matches Ok(job) ==> {
            &&& e.kind == 5100
            &&& requests::names_recipient(e.tags.deep_view(), worker.pubkey@)
            &&& jobs::decrypted(worker.keys.secret_key@, e.pubkey@, e.content@) is Some
            &&& job.request_event_id@ == e.id@
            &&& decoded matches Some(d)
            &&& jobs::job_problem(d) is None
            &&& job.repo@ == d.repo@ && job.ref_@ == d.ref_@ && job.workflow@ == d.workflow@
            &&& job.job@ == d.job@ && job.event@ == d.event@
        },
{
    let tags = e.tags.deep_view();
    if event::is_addressed_to(tags, worker.pubkey@) {
        let i = choose|i: int|
            0 <= i < tags.len() && event::is_recipient_tag(#[trigger] tags[i], worker.pubkey@);
        assert(tags[i][1] == worker.pubkey@);
    }
    if requests::names_recipient(tags, worker.pubkey@) {
        let i = choose|i: int|
            0 <= i < tags.len() && (#[trigger] tags[i]).len() >= 2 && tags[i][0] == "p"@
                && tags[i][1] == worker.pubkey@;
        assert(event::is_recipient_tag(tags[i], worker.pubkey@));
    }
}

/// A job is posted, or the environment has a problem, or the job could not be encrypted.
pub proof fn lemma_postings(env: &Vec<(String, String)>, r: Result<JobPosting, PostError>)
    requires
        call_ensures(post_job::build_job_posting, (env,), r),
    ensures
        r matches Ok(p) ==> post_job::posts(p, env@) && post_job::post_problem(env@) is None,
        post_job::post_problem(env@) matches Some(e) ==> r == Err::<JobPosting, PostError>(e),
        r matches Err(e) ==> e is Encrypt || post_job::post_problem(env@) == Some(e),
{
}

// ---------------------------------------------------------------------------------------------
// Payments
// ---------------------------------------------------------------------------------------------

/// The wallet, the containers and GitHub are used with what is configured.
pub proof fn lemma_what_is_used(
    c: &Config,
    wallet: PaymentClient,
    program: String,
    template: String,
    state_dir: String,
    manager: ContainerManager,
    repo: String,
    token: String,
    github: GitHubClient,
)
    requires
        call_ensures(PaymentClient::new, (c,), wallet),
        call_ensures(ContainerManager::with_programs, (program, template, state_dir), manager),
        call_ensures(GitHubClient::new, (repo, token), github),
    ensures
        wallet.cli_path@ == c.cdk_cli_path@,
        wallet.work_dir@ == c.cdk_work_dir@,
        wallet.engine@ == c.cdk_engine@,
        manager.nixos_container_bin@ == program@,
        manager.container_template@ == template@,
        manager.state_dir@ == state_dir@,
        github.repo@ == repo@,
        github.token@ == token@,
{
}

/// What was paid is charged for the billable time at the price, up to all of it, and what remains is
/// change.
pub proof fn lemma_bills(
    a: &PaymentAuthorization,
    elapsed: u64,
    minimum: u64,
    r: BillingOutcome,
    billable: nat,
)
    requires
        call_ensures(payments::settle_billing, (a, elapsed, minimum), r),
        billable >= elapsed && billable >= minimum,
        billable == elapsed || billable == minimum,
    ensures
        r.duration == elapsed,
        r.billable_duration == billable,
        billable * a.price_per_second <= a.payment.amount ==> r.cost == billable
            * a.price_per_second,
        billable * a.price_per_second > a.payment.amount ==> r.cost == a.payment.amount,
        r.cost + r.change_amount == a.payment.amount,
{
    assert(billable == payments::billable_seconds(elapsed as nat, minimum as nat));
}

/// The wallet is started with the settings of the client, and then the arguments of the command.
pub proof fn lemma_wallet_is_started(c: &PaymentClient, command: &WalletCommand, r: Vec<String>)
    requires
        call_ensures(PaymentClient::argv, (c, command), r),
    ensures
        r@.len() == 6 + command.args@.len(),
        r@[0]@ == "--work-dir"@ && r@[1]@ == c.work_dir@,
        r@[2]@ == "--engine"@ && r@[3]@ == c.engine@,
        r@[4]@ == "--unit"@ && r@[5]@ == command.unit@,
        forall|i: int| 0 <= i < command.args@.len() ==> #[trigger] command.args@[i]@ == r@[6 + i]@,
{
    let all = c.program_args(*command);
    assert(r.deep_view() == all);
    assert(r.deep_view().len() == r@.len());
    assert(command.args.deep_view().len() == command.args@.len());
    assert(forall|i: int| 0 <= i < r@.len() ==> r.deep_view()[i] == #[trigger] r@[i]@);
    assert forall|i: int| 0 <= i < command.args@.len() implies #[trigger] command.args@[i]@ == r@[6
        + i]@ by {
        assert(command.args.deep_view()[i] == command.args@[i]@);
        assert(r.deep_view()[6 + i] == r@[6 + i]@);
    }
}

/// Change is sent from the mint of the payment, in its unit and over the whole amount, and there is
/// nothing to send where the amount is nothing. The wallet is told to go on by a line feed.
pub proof fn lemma_change_is_sent(
    c: &PaymentClient,
    mint_url: &str,
    unit: &str,
    amount: u64,
    r: Result<WalletCommand, PaymentError>,
)
    requires
        call_ensures(PaymentClient::send_change, (c, mint_url, unit, amount), r),
    ensures
        amount == 0 ==> r matches Err(PaymentError::NoChange),
        amount > 0 ==> (r matches Ok(command) && {
            &&& command.unit@ == unit@
            &&& command.args@.len() == 5
            &&& command.args@[0]@ == "send"@
            &&& command.args@[1]@ == "--mint-url"@ && command.args@[2]@ == mint_url@
            &&& command.args@[3]@ == "--amount"@
            &&& command.args@[4]@ == number::decimal(amount as nat)
            &&& command.stdin matches Some(s) && s@ == "\n"@
        }),
{
    if let Ok(command) = r {
        assert(command.args.deep_view().len() == command.args@.len());
        assert(forall|i: int|
            0 <= i < command.args@.len() ==> command.args.deep_view()[i]
                == #[trigger] command.args@[i]@);
        assert(text::optional(command.stdin) == Some("\n"@));
    }
}

/// Whether the unit of a price is mentioned, and that of no other price is.
pub open spec fn is_the_unit(output: Seq<char>, prices: Seq<WorkerPrice>, p: int) -> bool {
    &&& wallet_output::mentions_unit(output, prices[p].unit@)
    &&& forall|q: int|
        0 <= q < prices.len() && wallet_output::mentions_unit(output, (#[trigger] prices[q]).unit@)
            ==> prices[q].unit@ == prices[p].unit@
}

/// The mint of a token is the one URL in what the wallet printed, whole and with its port.
pub proof fn lemma_token_metadata(output: &str, prices: &[WorkerPrice], r: Option<TokenMetadata>)
    requires
        call_ensures(wallet_output::parse_token_metadata, (output, prices), r),
    ensures
        r matches Some(t) ==> {
            &&& wallet_output::mint_urls(output@) == seq![t.mint_url@]
            &&& exists|p: int| 0 <= p < prices@.len() && (#[trigger] prices@[p]).unit@ == t.unit@
            &&& wallet_output::mentions_unit(output@, t.unit@)
            &&& forall|p: int|
                0 <= p < prices@.len() && wallet_output::mentions_unit(
                    output@,
                    (#[trigger] prices@[p]).unit@,
                ) ==> prices@[p].unit@ == t.unit@
        },
        wallet_output::mint_urls(output@).len() != 1 ==> r is None,
        wallet_output::mint_urls(output@).len() == 1 ==> forall|p: int|
            0 <= p < prices@.len() && #[trigger] is_the_unit(output@, prices@, p) ==> r is Some,
{
    if wallet_output::mint_urls(output@).len() == 1 {
        let m = wallet_output::mint_urls(output@)[0];
        assert(wallet_output::mint_urls(output@) =~= seq![m]);
        assert forall|p: int|
            0 <= p < prices@.len() && #[trigger] is_the_unit(output@, prices@, p) implies
            r is Some by {
            let unit = prices@[p].unit@;
            assert(wallet_output::is_token_unit(output@, prices@, unit));
            assert forall|u: Seq<char>| #[trigger]
                wallet_output::is_token_unit(output@, prices@, u) implies u == unit by {
                let q = choose|q: int| 0 <= q < prices@.len() && (#[trigger] prices@[q]).unit@ == u;
                assert(prices@[q].unit@ == u);
            }
            assert(wallet_output::tells_metadata(output@, prices@, m, unit));
            assert(wallet_output::has_metadata(output@, prices@));
        }
    }
    if let Some(t) = r {
        assert(wallet_output::tells_metadata(output@, prices@, t.mint_url@, t.unit@));
        assert forall|p: int|
            0 <= p < prices@.len() && wallet_output::mentions_unit(
                output@,
                (#[trigger] prices@[p]).unit@,
            ) implies prices@[p].unit@ == t.unit@ by {
            assert(wallet_output::is_token_unit(output@, prices@, prices@[p].unit@));
        }
    }
}

/// What was received is the difference of the balances for the mint and the unit, and the balance must
/// not become smaller.
pub proof fn lemma_what_was_received(
    before: &[BalanceEntry],
    after: &[BalanceEntry],
    mint_url: &str,
    unit: &str,
    r: Result<u64, PaymentError>,
)
    requires
        call_ensures(payments::received_delta, (before, after, mint_url, unit), r),
    ensures
        ({
            let old = payments::balance_total(payments::balance_views(before@), mint_url@, unit@);
            let new = payments::balance_total(payments::balance_views(after@), mint_url@, unit@);
            &&& old <= new <= u64::MAX ==> (r matches Ok(n) && old + n == new)
            &&& new < old <= u64::MAX ==> (r matches Err(PaymentError::NoIncrease {
                mint_url: m,
                unit: u,
            }) && m@ == mint_url@ && u@ == unit@)
            &&& old > u64::MAX || new > u64::MAX ==> r is Err
        }),
{
}

/// The configured units come once each, in the order of texts.
pub proof fn lemma_units_come_once(prices: &[WorkerPrice], r: Vec<String>, i: int, j: int, p: int)
    requires
        call_ensures(wallet_output::unique_units, (prices,), r),
        0 <= i < j < r@.len(),
        0 <= p < prices@.len(),
    ensures
        search::text_less(r@[i]@, r@[j]@),
        exists|k: int| 0 <= k < r@.len() && (#[trigger] r@[k])@ == prices@[p].unit@,
        exists|q: int| 0 <= q < prices@.len() && (#[trigger] prices@[q]).unit@ == r@[i]@,
{
    let units = r.deep_view();
    assert(units[i] == r@[i]@ && units[j] == r@[j]@);
    assert(wallet_output::is_unit_of(prices@, prices@[p].unit@));
    assert(units.contains(prices@[p].unit@));
    let k = choose|k: int| 0 <= k < units.len() && units[k] == prices@[p].unit@;
    assert(units[k] == r@[k]@);
    assert(units.contains(units[i]));
}

/// Whatever the wallet printed is read as the laws on its output say.
pub proof fn lemma_wallet_output(
    output: &str,
    urls: Vec<String>,
    received: Option<u64>,
    token: Option<String>,
)
    requires
        call_ensures(wallet_output::unique_urls, (output,), urls),
        call_ensures(wallet_output::parse_received_amount, (output,), received),
        call_ensures(wallet_output::parse_cashu_token, (output,), token),
    ensures
        urls.deep_view() == wallet_output::mint_urls(output@),
        received matches Some(n) ==> wallet_output::received_amount(output@) == Some(n as nat),
        received is None ==> wallet_output::received_amount(output@) is None,
        token matches Some(t) ==> wallet_output::first_token(text::words(output@)) == Some(t@),
        token is None ==> wallet_output::first_token(text::words(output@)) is None,
{
}

// ---------------------------------------------------------------------------------------------
// Containers
// ---------------------------------------------------------------------------------------------

/// A listing is read, a network is chosen, and containers are named as the laws on containers say.
pub proof fn lemma_container_operations(
    m: &ContainerManager,
    output: &str,
    pool: Vec<String>,
    all: Vec<String>,
    ips: &Vec<String>,
    subnet: u8,
    host: &str,
    slot: usize,
    name: String,
)
    requires
        call_ensures(ContainerManager::list, (m, output), pool),
        call_ensures(ContainerManager::list_all, (m, output), all),
        call_ensures(ContainerManager::get_free_subnet, (m, ips), subnet),
        call_ensures(ContainerManager::slot_to_container_name, (host, slot), name),
    ensures
        pool.deep_view() == container::pool_containers(output@),
        all.deep_view() == container::all_containers(output@),
        100 <= subnet <= 199,
        container::is_free_subnet(container::used_octets(ips.deep_view()), subnet as nat),
        name@ == container::container_name(container::text_hash(host@), slot as nat),
{
}

/// Whether the service of a worker has completed: it counts without the white space around what the
/// service manager says.
pub proof fn lemma_workers_that_have_completed(status: &str, result: Option<&str>, r: bool)
    requires
        call_ensures(ContainerManager::is_worker_completed, (true, Some(status), result), r),
    ensures
        text::trim_spec(status@) == "failed"@ ==> r,
        text::trim_spec(status@) != "failed"@ && text::trim_spec(status@) != "inactive"@ ==> !r,
        text::trim_spec(status@) == "inactive"@ && result is None ==> !r,
{
    reveal_strlit("failed");
    reveal_strlit("inactive");
    assert("failed"@.len() == 6 && "inactive"@.len() == 8);
}

/// A container that cannot be reached has completed.
pub proof fn lemma_lost_containers_have_completed(
    status: Option<&str>,
    result: Option<&str>,
    r: bool,
)
    requires
        call_ensures(ContainerManager::is_worker_completed, (false, status, result), r),
    ensures
        r,
{
}

/// A container command that succeeded gives what it printed, and one that failed is reported with its
/// arguments and what it printed as an error.
pub proof fn lemma_container_commands(
    m: &ContainerManager,
    args: &Vec<String>,
    success: bool,
    stdout: String,
    stderr: String,
    r: Result<String, ContainerError>,
)
    requires
        call_ensures(
            ContainerManager::finish_command,
            (m, args, ContainerOutcome::Exited { success, stdout, stderr }),
            r,
        ),
    ensures
        success ==> r == Ok::<String, ContainerError>(stdout),
        !success ==> (r matches Err(ContainerError::Failed { args: a, stderr: e }) && a.deep_view()
            == args.deep_view() && e@ == stderr@),
{
}

/// A container is cleaned up by stopping and destroying it, by its own name.
pub proof fn lemma_containers_are_cleaned_up(
    m: &ContainerManager,
    name: &str,
    r: ContainerCleanup,
)
    requires
        call_ensures(ContainerManager::cleanup_container, (m, name), r),
    ensures
        r.service@ == "container@"@ + name@ + ".service"@,
        r.stop@.len() == 2 && r.stop@[0]@ == "stop"@ && r.stop@[1]@ == name@,
        r.destroy@.len() == 2 && r.destroy@[0]@ == "destroy"@ && r.destroy@[1]@ == name@,
        m.are_artifacts(name@, r.artifacts),
{
    assert(r.stop.deep_view().len() == r.stop@.len());
    assert(r.stop.deep_view()[0] == r.stop@[0]@);
    assert(r.stop.deep_view()[1] == r.stop@[1]@);
    assert(r.destroy.deep_view().len() == r.destroy@.len());
    assert(r.destroy.deep_view()[0] == r.destroy@[0]@);
    assert(r.destroy.deep_view()[1] == r.destroy@[1]@);
}

/// What the service manager of a container is asked: whether the service is active, and how its last run
/// ended.
pub proof fn lemma_services_are_asked_for(
    name: &str,
    service: &str,
    status: Vec<String>,
    result: Vec<String>,
    reach: Vec<String>,
)
    requires
        call_ensures(ContainerManager::status_args, (name, service), status),
        call_ensures(ContainerManager::result_args, (name, service), result),
        call_ensures(ContainerManager::reach_args, (name,), reach),
    ensures
        status.deep_view() == seq!["run"@, name@, "--"@] + seq![
            "systemctl"@,
            "is-active"@,
            service@,
        ],
        result.deep_view() == seq!["run"@, name@, "--"@] + seq![
            "systemctl"@,
            "show"@,
            service@,
            "--property=Result"@,
        ],
        reach.deep_view() == seq!["run"@, name@, "--"@].push("true"@),
{
}

/// A command is run inside a container behind two dashes, with all its own arguments.
pub proof fn lemma_commands_inside(name: &str, command: &Vec<String>, r: Vec<String>, i: int)
    requires
        call_ensures(ContainerManager::run_args, (name, command), r),
    ensures
        r@.len() == 3 + command@.len(),
        r@[0]@ == "run"@ && r@[1]@ == name@ && r@[2]@ == "--"@,
        0 <= i < command@.len() ==> r@[3 + i]@ == command@[i]@,
{
    assert(r.deep_view().len() == r@.len());
    assert(command.deep_view().len() == command@.len());
    assert(forall|k: int| 0 <= k < r@.len() ==> r.deep_view()[k] == #[trigger] r@[k]@);
    if 0 <= i < command@.len() {
        assert(command.deep_view()[i] == command@[i]@);
        assert(r.deep_view()[3 + i] == r@[3 + i]@);
    }
}

// ---------------------------------------------------------------------------------------------
// Workers
// ---------------------------------------------------------------------------------------------

/// The key of a slot lies below the state directory, in a file of its own.
pub proof fn lemma_where_keys_are(state_dir: &str, store: WorkerKeyStore, slot: usize, r: String)
    requires
        call_ensures(WorkerKeyStore::new, (state_dir,), store),
        call_ensures(WorkerKeyStore::key_path, (&store, slot), r),
    ensures
        state_dir@.is_prefix_of(r@),
        messages::ends_with(r@, "slot-"@ + number::decimal(slot as nat) + ".nsec"@),
        messages::ends_with(store.key_dir@, "keys"@),
        store.key_dir@.is_prefix_of(r@),
{
    texts::lemma_paths_are_joined(state_dir@, "keys"@);
    texts::lemma_paths_are_joined(
        store.key_dir@,
        "slot-"@ + number::decimal(slot as nat) + ".nsec"@,
    );
    assert(state_dir@ =~= r@.take(state_dir@.len() as int)) by {
        let d = store.key_dir@;
        assert(d == r@.take(d.len() as int));
        assert(state_dir@ == d.take(state_dir@.len() as int));
        assert(r@.take(d.len() as int).take(state_dir@.len() as int) =~= r@.take(
            state_dir@.len() as int,
        ));
    }
}

/// Every slot gets its own worker, in order, up to the first key that is not one.
pub proof fn lemma_slots_get_their_workers(
    store: &WorkerKeyStore,
    stored: &Vec<Option<String>>,
    r: LoadedPool,
    i: int,
)
    requires
        call_ensures(WorkerKeyStore::load_or_create_all, (store, stored), r),
        0 <= i < r.loaded@.len(),
        stored@.len() <= usize::MAX,
    ensures
        r.loaded@[i].identity.slot == i,
        r.error is None ==> r.loaded@.len() == stored@.len(),
        r.error matches Some(e) ==> e == (LoomError::ParseKey { slot: r.loaded@.len() as usize }),
        stored@[i] matches Some(s) ==> r.loaded@[i].to_store is None && event::parsed_keys(
            text::trim_spec(s@),
        ) == Some((r.loaded@[i].identity.keys.secret_key@, r.loaded@[i].identity.pubkey@)),
        stored@[i] is None ==> r.loaded@[i].to_store is Some,
{
    let own = text::optional(stored@[i]);
    assert(loom::is_loaded(r.loaded@[i], i as usize, own));
    runtime::lemma_workers_have_the_stored_key(r.loaded@[i], i as usize, own);
}

/// Job requests are looked for with the public keys of all workers, in order and in small letters.
pub proof fn lemma_requests_are_looked_for(
    workers: &Vec<WorkerIdentity>,
    r: Result<Vec<String>, LoomError>,
    i: int,
)
    requires
        call_ensures(loom::job_request_pubkeys, (workers,), r),
        0 <= i < workers@.len(),
    ensures
        r matches Ok(keys) ==> keys@.len() == workers@.len() && keys@[i]@
            == search::lowercase(workers@[i].pubkey@),
        (forall|j: int|
            0 <= j < workers@.len() ==> event::is_key_hex((#[trigger] workers@[j]).pubkey@))
            ==> r is Ok,
        !event::is_key_hex(workers@[i].pubkey@) && (forall|j: int|
            0 <= j < i ==> event::is_key_hex((#[trigger] workers@[j]).pubkey@)) ==> (
        r matches Err(LoomError::InvalidPubkey { slot }) && slot == workers@[i].slot),
{
    if !event::is_key_hex(workers@[i].pubkey@) && (forall|j: int|
        0 <= j < i ==> event::is_key_hex((#[trigger] workers@[j]).pubkey@)) {
        runtime::lemma_first_invalid_worker_is_reported(workers@, i);
    }
    if forall|j: int|
        0 <= j < workers@.len() ==> event::is_key_hex((#[trigger] workers@[j]).pubkey@) {
        lemma_no_invalid_worker(workers@);
    }
}

proof fn lemma_no_invalid_worker(workers: Seq<WorkerIdentity>)
    requires
        forall|j: int|
            0 <= j < workers.len() ==> event::is_key_hex((#[trigger] workers[j]).pubkey@),
    ensures
        loom::first_invalid_worker(workers) is None,
    decreases workers.len(),
{
    if workers.len() > 0 {
        let t = workers.drop_first();
        assert forall|j: int| 0 <= j < t.len() implies event::is_key_hex(
            (#[trigger] t[j]).pubkey@,
        ) by {
            assert(t[j] == workers[j + 1]);
        }
        assert(event::is_key_hex(workers[0].pubkey@));
        lemma_no_invalid_worker(t);
    }
}

/// An event belongs to the slot of the first worker that it names.
pub proof fn lemma_events_belong_to_slots(
    pool: &PoolController,
    e: &Event,
    r: Option<usize>,
    i: int,
)
    requires
        call_ensures(PoolController::slot_for_event, (pool, e), r),
    ensures
        requests::is_first_named(pool.workers@, e.tags.deep_view(), i) ==> r == Some(
            pool.workers@[i].slot,
        ),
{
    requests::lemma_events_are_for_the_first_named(pool.workers@, e.tags.deep_view());
}

/// The container of a slot is named after the host of the pool and the slot.
pub proof fn lemma_containers_of_the_pool(pool: &PoolController, slot: usize, r: String)
    requires
        call_ensures(PoolController::container_name, (pool, slot), r),
    ensures
        r@ == container::container_name(container::text_hash(pool.hostname@), slot as nat),
        r@ == pool.name_of(slot as nat),
{
}

/// The workers have to be advertised where they have not been yet, or where at least the interval has
/// passed since.
pub proof fn lemma_when_advertisements_are_due(
    pool: &PoolController,
    since: Duration,
    first: bool,
    again: bool,
)
    requires
        call_ensures(PoolController::advertisements_due, (pool, None::<Duration>), first),
        call_ensures(PoolController::advertisements_due, (pool, Some(since)), again),
    ensures
        first,
        again <==> clock::nanos_of_duration(since) >= clock::nanos_of_duration(
            pool.config.advertise_interval,
        ),
{
}

/// An entry is stale exactly where there is no container of its name.
pub proof fn lemma_stale_entries(
    entries: &Vec<String>,
    containers: &Vec<String>,
    r: Vec<String>,
    name: Seq<char>,
)
    requires
        call_ensures(listener::stale_entries, (entries, containers), r),
    ensures
        r.deep_view().contains(name) <==> entries.deep_view().contains(name)
            && !containers.deep_view().contains(name),
{
    listener::lemma_stale_names(entries.deep_view(), containers.deep_view(), name);
}

// ---------------------------------------------------------------------------------------------
// GitHub
// ---------------------------------------------------------------------------------------------

/// Where GitHub is asked: all paths are those of the runners of the repository, on the same host, and
/// with the token.
pub proof fn lemma_where_github_is_asked(
    c: &GitHubClient,
    endpoint: &str,
    url: String,
    authorization: String,
    page: u64,
    id: u64,
    registration: String,
    listing: String,
    deletion: String,
)
    requires
        call_ensures(GitHubClient::url, (endpoint,), url),
        call_ensures(GitHubClient::authorization, (c,), authorization),
        call_ensures(GitHubClient::get_registration_token, (c,), registration),
        call_ensures(GitHubClient::list_runners, (c, page), listing),
        call_ensures(GitHubClient::delete_runner, (c, id), deletion),
    ensures
        url@ == "https://api.github.com"@ + endpoint@,
        authorization@ == "token "@ + c.token@,
        registration@ == "/repos/"@ + c.repo@ + "/actions/runners"@ + "/registration-token"@,
        listing@ == "/repos/"@ + c.repo@ + "/actions/runners"@ + "?per_page=100&page="@
            + number::decimal(page as nat),
        deletion@ == "/repos/"@ + c.repo@ + "/actions/runners"@ + "/"@ + number::decimal(
            id as nat,
        ),
{
}

/// A runner is deleted by the identifier of the first runner with its name, and nothing is deleted where
/// there is none.
pub proof fn lemma_runners_are_deleted_by_name(
    c: &GitHubClient,
    runners: &Vec<Runner>,
    name: &str,
    i: int,
    found: Option<u64>,
    deletion: Option<String>,
)
    requires
        call_ensures(GitHubClient::find_runner_by_name, (runners, name), found),
        call_ensures(GitHubClient::delete_runner_by_name, (c, runners, name), deletion),
    ensures
        github::is_first_runner(runners@, name@, i) ==> found == Some(runners@[i].id) && (
        deletion matches Some(s) && s@ == "/repos/"@ + c.repo@ + "/actions/runners"@ + "/"@
            + number::decimal(runners@[i].id as nat)),
        (forall|j: int| 0 <= j < runners@.len() ==> (#[trigger] runners@[j]).name@ != name@)
            ==> found is None && deletion is None,
{
    github::lemma_runners_are_found(runners@, name@);
}

/// The number of requests that are left is low where it is known and below 100.
pub proof fn lemma_low_rate_limits(remaining: &str, n: nat, r: bool)
    requires
        call_ensures(client::is_rate_limit_low, (remaining,), r),
        remaining@ == number::decimal(n),
        n <= u32::MAX,
    ensures
        r <==> n < 100,
{
    texts::lemma_decimals_read_back(n, u32::MAX as nat);
}

} // verus!
