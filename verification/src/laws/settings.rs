//! Laws on the configuration: which variable of the environment tells what.

use vstd::prelude::*;

use crate::clock;
use crate::config;
use crate::config::{Config, ConfigError, Variable};
use crate::laws::texts;
use crate::number;
use crate::paths;
use crate::text;
use crate::text::CharClass;

verus! {

/// Whether the first entry with a name has this value.
pub open spec fn says(env: Seq<(String, String)>, name: Seq<char>, value: Seq<char>) -> bool {
    exists|i: int| #[trigger] is_first_entry(env, name, i) && env[i].1@ == value
}

/// Whether the entry at `i` is the first one with a name.
pub open spec fn is_first_entry(env: Seq<(String, String)>, name: Seq<char>, i: int) -> bool {
    &&& 0 <= i < env.len()
    &&& env[i].0@ == name
    &&& forall|j: int| 0 <= j < i ==> (#[trigger] env[j]).0@ != name
}

/// Whether no entry has a name.
pub open spec fn is_silent(env: Seq<(String, String)>, name: Seq<char>) -> bool {
    forall|i: int| 0 <= i < env.len() ==> (#[trigger] env[i]).0@ != name
}

/// Whether the environment gives a text this value: that of the variable or, where it is not set, the
/// default.
pub open spec fn gives(
    env: Seq<(String, String)>,
    name: Seq<char>,
    default: Seq<char>,
    value: Seq<char>,
) -> bool {
    says(env, name, value) || is_silent(env, name) && value == default
}

/// Whether the environment gives a number this value: the variable writes it down or, where it is not
/// set, it is the default.
pub open spec fn counts(
    env: Seq<(String, String)>,
    name: Seq<char>,
    default: nat,
    max: nat,
    value: nat,
) -> bool {
    &&& is_silent(env, name) ==> value == default
    &&& forall|n: nat| n <= max && #[trigger] says(env, name, number::decimal(n)) ==> value == n
    &&& forall|s: Seq<char>| #[trigger]
        says(env, name, s) ==> number::parse_up_to(s, max) == Some(value)
}

/// A variable is set to the value of the first entry with its name, and not set where there is none.
pub proof fn lemma_settings_are_found(env: Seq<(String, String)>, v: Variable)
    ensures
        forall|s: Seq<char>| #[trigger]
            says(env, config::variable_name(v), s) ==> config::setting(env, v) == Some(s),
        is_silent(env, config::variable_name(v)) ==> config::setting(env, v) is None,
        config::setting(env, v) is None ==> is_silent(env, config::variable_name(v)),
        config::setting(env, v) matches Some(s) ==> says(env, config::variable_name(v), s),
    decreases env.len(),
{
    let name = config::variable_name(v);
    if env.len() > 0 {
        let t = env.drop_first();
        lemma_settings_are_found(t, v);
        if env[0].0@ == name {
            assert(is_first_entry(env, name, 0));
            assert(says(env, name, env[0].1@));
            assert forall|s: Seq<char>| #[trigger] says(env, name, s) implies s == env[0].1@ by {
                let i = choose|i: int| #[trigger] is_first_entry(env, name, i) && env[i].1@ == s;
                if i > 0 {
                    assert(env[0].0@ != name);
                }
            }
        } else {
            assert forall|s: Seq<char>| #[trigger] says(env, name, s) implies says(t, name, s) by {
                let i = choose|i: int| #[trigger] is_first_entry(env, name, i) && env[i].1@ == s;
                assert(is_first_entry(t, name, i - 1)) by {
                    assert(t[i - 1] == env[i]);
                    assert forall|j: int| 0 <= j < i - 1 implies (#[trigger] t[j]).0@ != name by {
                        assert(t[j] == env[j + 1]);
                    }
                }
            }
            if let Some(s) = config::setting(t, v) {
                let i = choose|i: int| #[trigger] is_first_entry(t, name, i) && t[i].1@ == s;
                assert(is_first_entry(env, name, i + 1)) by {
                    assert(t[i] == env[i + 1]);
                    assert forall|j: int| 0 <= j < i + 1 implies (#[trigger] env[j]).0@ != name by {
                        if j > 0 {
                            assert(t[j - 1] == env[j]);
                        }
                    }
                }
            }
            if is_silent(env, name) {
                assert forall|i: int| 0 <= i < t.len() implies (#[trigger] t[i]).0@ != name by {
                    assert(t[i] == env[i + 1]);
                }
            }
            if is_silent(t, name) {
                assert forall|i: int| 0 <= i < env.len() implies (#[trigger] env[i]).0@ != name by {
                    if i > 0 {
                        assert(t[i - 1] == env[i]);
                    }
                }
            }
        }
    }
}

proof fn lemma_gives(env: Seq<(String, String)>, v: Variable, default: Seq<char>)
    ensures
        gives(env, config::variable_name(v), default, config::setting_or(env, v, default)),
{
    lemma_settings_are_found(env, v);
}

proof fn lemma_counts(env: Seq<(String, String)>, v: Variable, default: nat, max: nat)
    ensures
        config::number_setting(env, v, default, max) matches Some(n) ==> counts(
            env,
            config::variable_name(v),
            default,
            max,
            n,
        ),
{
    lemma_settings_are_found(env, v);
    let name = config::variable_name(v);
    if let Some(value) = config::number_setting(env, v, default, max) {
        assert forall|n: nat| n <= max && #[trigger]
            says(env, name, number::decimal(n)) implies value == n by {
            texts::lemma_decimals_read_back(n, max);
        }
    }
}

/// The texts of a configuration: each is what its own variable says, or its default.
pub proof fn lemma_configured_texts(c: Config, env: Seq<(String, String)>)
    requires
        config::is_config_of(c, env),
    ensures
        gives(env, "WORKER_NAME"@, "loom-worker"@, c.worker_name@),
        gives(env, "WORKER_DESCRIPTION"@, "Loom worker"@, c.worker_description@),
        gives(env, "WORKER_ARCHITECTURE"@, "x86_64"@, c.worker_architecture@),
        gives(env, "WORKER_DEFAULT_SHELL"@, "/bin/bash"@, c.worker_default_shell@),
        gives(env, "WORKER_SERVICE_NAME"@, "hive-worker.service"@, c.worker_service_name@),
        gives(env, "WORKER_ACT_PATH"@, "/bin/act"@, c.worker_act_path@),
        gives(env, "WORKER_NGIT_PATH"@, "/usr/local/bin/ngit"@, c.worker_ngit_path@),
        gives(
            env,
            "WORKER_GIT_REMOTE_NOSTR_PATH"@,
            "/usr/local/bin/git-remote-nostr"@,
            c.worker_git_remote_nostr_path@,
        ),
        gives(env, "WORKER_WORK_DIR"@, "/var/lib/loom-worker/work"@, c.worker_work_dir@),
        gives(env, "STATE_DIR"@, "/var/lib/runner-controller"@, c.state_dir@),
        gives(env, "CDK_CLI_PATH"@, "cdk-cli"@, c.cdk_cli_path@),
        gives(env, "CDK_ENGINE"@, "redb"@, c.cdk_engine@),
        gives(env, "NIXOS_CONTAINER_BIN"@, "nixos-container"@, c.nixos_container_bin@),
        gives(env, "HTTP_ADDR"@, "127.0.0.1"@, c.http_addr@),
        gives(
            env,
            "CDK_WORK_DIR"@,
            paths::joined_path(c.state_dir@, "cdk-cli"@),
            c.cdk_work_dir@,
        ),
        c.worker_geohash matches Some(g) ==> says(env, "WORKER_GEOHASH"@, g@),
        c.worker_geohash is None ==> is_silent(env, "WORKER_GEOHASH"@),
{
    lemma_gives(env, Variable::WorkerName, "loom-worker"@);
    lemma_gives(env, Variable::WorkerDescription, "Loom worker"@);
    lemma_gives(env, Variable::WorkerArchitecture, "x86_64"@);
    lemma_gives(env, Variable::WorkerDefaultShell, "/bin/bash"@);
    lemma_gives(env, Variable::WorkerServiceName, "hive-worker.service"@);
    lemma_gives(env, Variable::WorkerActPath, "/bin/act"@);
    lemma_gives(env, Variable::WorkerNgitPath, "/usr/local/bin/ngit"@);
    lemma_gives(env, Variable::WorkerGitRemoteNostrPath, "/usr/local/bin/git-remote-nostr"@);
    lemma_gives(env, Variable::WorkerWorkDir, "/var/lib/loom-worker/work"@);
    lemma_gives(env, Variable::StateDir, "/var/lib/runner-controller"@);
    lemma_gives(env, Variable::CdkCliPath, "cdk-cli"@);
    lemma_gives(env, Variable::CdkEngine, "redb"@);
    lemma_gives(env, Variable::NixosContainerBin, "nixos-container"@);
    lemma_gives(env, Variable::HttpAddr, "127.0.0.1"@);
    lemma_gives(env, Variable::CdkWorkDir, paths::joined_path(c.state_dir@, "cdk-cli"@));
    lemma_settings_are_found(env, Variable::WorkerGeohash);
}

/// The numbers of a configuration: each is what its own variable writes down, or its default.
pub proof fn lemma_configured_numbers(c: Config, env: Seq<(String, String)>)
    requires
        config::is_config_of(c, env),
    ensures
        counts(env, "MAX_CONCURRENT"@, 7, usize::MAX as nat, c.max_concurrent_jobs as nat),
        counts(env, "WORKER_MIN_DURATION"@, 5, u64::MAX as nat, c.worker_min_duration as nat),
        counts(env, "WORKER_MAX_DURATION"@, 120, u64::MAX as nat, c.worker_max_duration as nat),
        counts(
            env,
            "WORKER_MAX_CONCURRENT_JOBS"@,
            1,
            u64::MAX as nat,
            c.worker_max_concurrent_jobs as nat,
        ),
        counts(env, "WORKER_HTTP_PORT"@, 8081, u16::MAX as nat, c.worker_http_port as nat),
        counts(env, "HTTP_PORT"@, 8080, u16::MAX as nat, c.http_port as nat),
{
    lemma_counts(env, Variable::MaxConcurrent, 7, usize::MAX as nat);
    lemma_counts(env, Variable::WorkerMinDuration, 5, u64::MAX as nat);
    lemma_counts(env, Variable::WorkerMaxDuration, 120, u64::MAX as nat);
    lemma_counts(env, Variable::WorkerMaxConcurrentJobs, 1, u64::MAX as nat);
    lemma_counts(env, Variable::WorkerHttpPort, 8081, u16::MAX as nat);
    lemma_counts(env, Variable::HttpPort, 8080, u16::MAX as nat);
}

/// The times of a configuration: each is the number of seconds that its own variable writes down, or
/// its default.
pub proof fn lemma_configured_times(c: Config, env: Seq<(String, String)>, secs: u64)
    requires
        config::is_config_of(c, env),
    ensures
        says(env, "POLL_INTERVAL"@, number::decimal(secs as nat)) ==> c.poll_interval
            == clock::duration_of_secs(secs),
        is_silent(env, "POLL_INTERVAL"@) ==> c.poll_interval == clock::duration_of_secs(10),
        says(env, "JOB_TIMEOUT"@, number::decimal(secs as nat)) ==> c.job_timeout
            == clock::duration_of_secs(secs),
        is_silent(env, "JOB_TIMEOUT"@) ==> c.job_timeout == clock::duration_of_secs(7200),
        says(env, "ADVERTISE_INTERVAL"@, number::decimal(secs as nat)) ==> c.advertise_interval
            == clock::duration_of_secs(secs),
        is_silent(env, "ADVERTISE_INTERVAL"@) ==> c.advertise_interval == clock::duration_of_secs(
            300,
        ),
{
    let max = u64::MAX as nat;
    texts::lemma_decimals_read_back(secs as nat, max);
    lemma_counts(env, Variable::PollInterval, 10, max);
    lemma_counts(env, Variable::JobTimeout, 7200, max);
    lemma_counts(env, Variable::AdvertiseInterval, 300, max);
}

/// Whether an entry is these three fields with colons between them.
pub open spec fn is_entry(
    e: Seq<char>,
    first: Seq<char>,
    second: Seq<char>,
    third: Seq<char>,
) -> bool {
    e == first.push(':') + second.push(':') + third
}

/// The fields of a software entry: a path may have colons, and nothing else may.
pub proof fn lemma_software_entries(e: Seq<char>, a: Seq<char>, b: Seq<char>, c: Seq<char>)
    ensures
        is_entry(e, a, b, c) && a.len() > 0 && b.len() > 0 && c.len() > 0 && !a.contains(':')
            && !b.contains(':') ==> (config::software_fields(e) matches Some(f) && f.first == a
            && f.second == b && f.third == c),
        config::software_fields(e) matches Some(f) ==> is_entry(e, f.first, f.second, f.third)
            && f.first.len() > 0 && f.second.len() > 0 && f.third.len() > 0 && !f.first.contains(
            ':',
        ) && !f.second.contains(':'),
{
    let k = CharClass::Colon;
    if is_entry(e, a, b, c) && a.len() > 0 && b.len() > 0 && c.len() > 0 && !a.contains(':')
        && !b.contains(':') {
        let rest = b.push(':') + c;
        assert(e =~= a.push(':') + rest);
        lemma_until_colon(a, rest);
        lemma_until_colon(b, c);
    }
    if let Some(f) = config::software_fields(e) {
        let p = text::position(e, k) as int;
        let rest = e.skip(p + 1);
        let q = text::position(rest, k) as int;
        text::lemma_position(e, k);
        text::lemma_position(rest, k);
        assert(e =~= f.first.push(':') + f.second.push(':') + f.third);
        assert forall|i: int| 0 <= i < f.first.len() implies f.first[i] != ':' by {
            assert(!k.holds(e[i]));
        }
        assert forall|i: int| 0 <= i < f.second.len() implies f.second[i] != ':' by {
            assert(!k.holds(rest[i]));
        }
    }
}

proof fn lemma_until_colon(a: Seq<char>, b: Seq<char>)
    requires
        !a.contains(':'),
    ensures
        text::position(a.push(':') + b, CharClass::Colon) == a.len(),
        (a.push(':') + b).take(a.len() as int) == a,
        (a.push(':') + b).skip((a.len() + 1) as int) == b,
{
    let k = CharClass::Colon;
    let s = a.push(':') + b;
    assert forall|i: int| 0 <= i < a.len() implies !k.holds(#[trigger] s[i]) by {
        assert(s[i] == a[i]);
        if a[i] == ':' {
            assert(a.contains(':'));
        }
    }
    text::lemma_position_is(s, k, a.len() as int);
    assert(s.take(a.len() as int) =~= a);
    assert(s.skip((a.len() + 1) as int) =~= b);
}

/// The fields of a price entry: a mint may have colons, and nothing else may.
pub proof fn lemma_price_entries(e: Seq<char>, a: Seq<char>, b: Seq<char>, c: Seq<char>)
    ensures
        is_entry(e, a, b, c) && a.len() > 0 && b.len() > 0 && c.len() > 0 && !b.contains(':')
            && !c.contains(':') ==> (config::price_fields(e) matches Some(f) && f.first == a
            && f.second == b && f.third == c),
        config::price_fields(e) matches Some(f) ==> is_entry(e, f.first, f.second, f.third)
            && f.first.len() > 0 && f.second.len() > 0 && f.third.len() > 0 && !f.second.contains(
            ':',
        ) && !f.third.contains(':'),
{
    let k = CharClass::Colon;
    if is_entry(e, a, b, c) && a.len() > 0 && b.len() > 0 && c.len() > 0 && !b.contains(':')
        && !c.contains(':') {
        let head = a.push(':') + b;
        assert(e =~= head.push(':') + c);
        lemma_from_colon(head, c);
        lemma_from_colon(a, b);
    }
    if let Some(f) = config::price_fields(e) {
        let q = text::last_position(e, k);
        let head = e.take(q);
        let p = text::last_position(head, k);
        lemma_last_colon(e);
        lemma_last_colon(head);
        assert(e =~= f.first.push(':') + f.second.push(':') + f.third);
        assert forall|i: int| 0 <= i < f.second.len() implies f.second[i] != ':' by {
            assert(head[p + 1 + i] != ':');
        }
        assert forall|i: int| 0 <= i < f.third.len() implies f.third[i] != ':' by {
            assert(e[q + 1 + i] != ':');
        }
    }
}

proof fn lemma_last_colon(s: Seq<char>)
    ensures
        ({
            let p = text::last_position(s, CharClass::Colon);
            &&& -1 <= p < s.len()
            &&& p >= 0 ==> s[p] == ':'
            &&& forall|i: int| p < i < s.len() ==> #[trigger] s[i] != ':'
        }),
    decreases s.len(),
{
    if s.len() > 0 && s.last() != ':' {
        let t = s.drop_last();
        lemma_last_colon(t);
        let p = text::last_position(s, CharClass::Colon);
        assert forall|i: int| p < i < s.len() implies #[trigger] s[i] != ':' by {
            if i < t.len() {
                assert(t[i] == s[i]);
            }
        }
    }
}

proof fn lemma_from_colon(a: Seq<char>, b: Seq<char>)
    requires
        !b.contains(':'),
    ensures
        text::last_position(a.push(':') + b, CharClass::Colon) == a.len(),
        (a.push(':') + b).take(a.len() as int) == a,
        (a.push(':') + b).skip((a.len() + 1) as int) == b,
{
    let s = a.push(':') + b;
    let p = text::last_position(s, CharClass::Colon);
    lemma_last_colon(s);
    assert(s[a.len() as int] == ':');
    if p > a.len() {
        assert(b[p - a.len() - 1] == ':');
    }
    assert(s.take(a.len() as int) =~= a);
    assert(s.skip((a.len() + 1) as int) =~= b);
}

/// The lists of a configuration: each has the entries of its own variable, in order and none left out.
pub proof fn lemma_configured_lists(c: Config, env: Seq<(String, String)>, s: Seq<char>)
    requires
        config::is_config_of(c, env),
    ensures
        says(env, "NOSTR_RELAYS"@, s) ==> are_entries(c.relays.deep_view(), s),
        says(env, "BLOSSOM_SERVERS"@, s) ==> are_entries(c.blossom_servers.deep_view(), s),
        is_silent(env, "BLOSSOM_SERVERS"@) ==> c.blossom_servers@.len() == 0,
        says(env, "CASHU_MINTS"@, s) ==> are_entries(c.cashu_mints.deep_view(), s),
        is_silent(env, "CASHU_MINTS"@) ==> c.cashu_mints@.len() == 0,
{
    lemma_settings_are_found(env, Variable::NostrRelays);
    lemma_settings_are_found(env, Variable::BlossomServers);
    lemma_settings_are_found(env, Variable::CashuMints);
    lemma_empty_lists();
    assert(c.blossom_servers.deep_view().len() == c.blossom_servers@.len());
    assert(c.cashu_mints.deep_view().len() == c.cashu_mints@.len());
}

/// Whether these are the entries of a list.
pub open spec fn are_entries(entries: Seq<Seq<char>>, list: Seq<char>) -> bool {
    entries == text::csv_entries(list)
}

proof fn lemma_empty_lists()
    ensures
        text::csv_entries(""@).len() == 0,
{
    let none: Seq<char> = seq![];
    reveal_strlit("");
    assert(""@ =~= none);
    texts::lemma_csv_entries_of(none, none);
    texts::lemma_trim_takes_white_space_off(none, none, none);
    assert(none + none + none =~= none);
}

/// The software of a configuration: each piece is its own entry of the list, with its name, its version
/// and its path, in order and none left out.
pub proof fn lemma_configured_software(
    c: Config,
    env: Seq<(String, String)>,
    s: Seq<char>,
    i: int,
)
    requires
        config::is_config_of(c, env),
        says(env, "WORKER_SOFTWARE"@, s),
    ensures
        c.worker_software@.len() == text::csv_entries(s).len(),
        0 <= i < c.worker_software@.len() ==> ({
            let w = c.worker_software@[i];
            &&& is_entry(text::csv_entries(s)[i], w.name@, w.version@, w.path@)
            &&& w.name@.len() > 0 && !w.name@.contains(':')
            &&& w.version@.len() > 0 && !w.version@.contains(':')
            &&& w.path@.len() > 0
        }),
{
    let none: Seq<char> = seq![];
    lemma_settings_are_found(env, Variable::WorkerSoftware);
    if 0 <= i < c.worker_software@.len() {
        assert(config::is_software_entry(c.worker_software@[i], text::csv_entries(s)[i]));
        lemma_software_entries(text::csv_entries(s)[i], none, none, none);
    }
}

/// The prices of a configuration: each is its own entry of the list, with its mint, its price and its
/// unit, in order and none left out, and every price is a positive number.
pub proof fn lemma_configured_prices(
    c: Config,
    env: Seq<(String, String)>,
    s: Seq<char>,
    i: int,
)
    requires
        config::is_config_of(c, env),
        says(env, "WORKER_PRICES"@, s),
    ensures
        c.worker_prices@.len() == text::csv_entries(s).len(),
        0 <= i < c.worker_prices@.len() ==> ({
            let p = c.worker_prices@[i];
            &&& is_entry(text::csv_entries(s)[i], p.mint_url@, p.price_per_second@, p.unit@)
            &&& p.mint_url@.len() > 0
            &&& p.price_per_second@.len() > 0 && !p.price_per_second@.contains(':')
            &&& p.unit@.len() > 0 && !p.unit@.contains(':')
            &&& number::parse_up_to(p.price_per_second@, u64::MAX as nat) matches Some(n) && n > 0
        }),
{
    let none: Seq<char> = seq![];
    lemma_settings_are_found(env, Variable::WorkerPrices);
    if 0 <= i < c.worker_prices@.len() {
        let e = text::csv_entries(s)[i];
        assert(config::is_price_entry(c.worker_prices@[i], e));
        assert(config::price_fields(e) is Some);
        lemma_price_entries(e, none, none, none);
    }
}

/// Without the relays, the software or the prices there is no configuration, and the error names the
/// first of them that is missing.
pub proof fn lemma_required_settings(env: Seq<(String, String)>)
    ensures
        is_silent(env, "NOSTR_RELAYS"@) ==> config::config_problem(env) == Some(
            ConfigError::Missing(Variable::NostrRelays),
        ),
        !is_silent(env, "NOSTR_RELAYS"@) && is_silent(env, "WORKER_SOFTWARE"@)
            ==> config::config_problem(env) == Some(ConfigError::Missing(Variable::WorkerSoftware)),
        is_silent(env, "WORKER_PRICES"@) ==> config::config_problem(env) is Some,
        config::config_problem(env) == Some(ConfigError::Missing(Variable::WorkerPrices))
            ==> is_silent(env, "WORKER_PRICES"@),
{
    lemma_settings_are_found(env, Variable::NostrRelays);
    lemma_settings_are_found(env, Variable::WorkerSoftware);
    lemma_settings_are_found(env, Variable::WorkerPrices);
}

/// A variable that has to be a number keeps the environment from being a configuration where it is
/// none, or where the number is too large.
pub proof fn lemma_numbers_are_required(
    env: Seq<(String, String)>,
    name: Seq<char>,
    s: Seq<char>,
)
    requires
        says(env, name, s),
        number::parse_up_to(s, u64::MAX as nat) is None,
        ({
            ||| name == "MAX_CONCURRENT"@
            ||| name == "POLL_INTERVAL"@
            ||| name == "JOB_TIMEOUT"@
            ||| name == "ADVERTISE_INTERVAL"@
            ||| name == "WORKER_MIN_DURATION"@
            ||| name == "WORKER_MAX_DURATION"@
            ||| name == "WORKER_MAX_CONCURRENT_JOBS"@
            ||| name == "WORKER_HTTP_PORT"@
            ||| name == "HTTP_PORT"@
        }),
    ensures
        config::config_problem(env) is Some,
{
    lemma_settings_are_found(env, Variable::MaxConcurrent);
    lemma_settings_are_found(env, Variable::PollInterval);
    lemma_settings_are_found(env, Variable::JobTimeout);
    lemma_settings_are_found(env, Variable::AdvertiseInterval);
    lemma_settings_are_found(env, Variable::WorkerMinDuration);
    lemma_settings_are_found(env, Variable::WorkerMaxDuration);
    lemma_settings_are_found(env, Variable::WorkerMaxConcurrentJobs);
    lemma_settings_are_found(env, Variable::WorkerHttpPort);
    lemma_settings_are_found(env, Variable::HttpPort);
}

} // verus!
