//! Laws on what errors say: whatever an error knows is in its message.

use vstd::prelude::*;

use crate::config;
use crate::config::{ConfigError, GitHubConfigError, Variable};
use crate::container;
use crate::container::ContainerError;
use crate::github::client;
use crate::github::client::{GitHubError, Method};
use crate::jobs;
use crate::jobs::JobError;
use crate::laws::texts;
use crate::loom;
use crate::loom::LoomError;
use crate::number;
use crate::payments;
use crate::payments::{CommandError, PaymentError};
use crate::post_job;
use crate::post_job::PostError;
use crate::search;
use crate::text;

verus! {

/// Whether a message ends with something.
pub open spec fn ends_with(message: Seq<char>, s: Seq<char>) -> bool {
    s.is_suffix_of(message)
}

proof fn lemma_ends(a: Seq<char>, s: Seq<char>)
    ensures
        ends_with(a + s, s),
        a.is_prefix_of(a + s),
        search::contains_text(a + s, s),
        search::contains_text(a + s, a),
{
    let none: Seq<char> = seq![];
    assert(s =~= (a + s).skip((a + s).len() - s.len()));
    assert(a =~= (a + s).take(a.len() as int));
    texts::lemma_part_is_found(a, s, none);
    assert(a + s + none =~= a + s);
    texts::lemma_part_is_found(none, a, s);
    assert(none + a + s =~= a + s);
}

/// An error about a variable names the variable first.
pub proof fn lemma_configuration_errors(v: Variable, path: String)
    ensures
        config::variable_name(v).is_prefix_of(config::config_error_text(ConfigError::Missing(v))),
        config::variable_name(v).is_prefix_of(
            config::config_error_text(ConfigError::InvalidNumber(v)),
        ),
        config::variable_name(v).is_prefix_of(
            config::config_error_text(ConfigError::InvalidPort(v)),
        ),
        config::variable_name(v).is_prefix_of(post_job::post_error_text(PostError::Missing(v))),
        ends_with(
            config::github_config_error_text(GitHubConfigError::UnreadableToken { path }),
            path@,
        ),
{
    let name = config::variable_name(v);
    lemma_ends(name, " environment variable is required"@);
    lemma_ends(name, " must be a valid number"@);
    lemma_ends(name, " must be a valid port number"@);
    lemma_ends(name, " is required"@);
    lemma_ends("Failed to read GitHub token from "@, path@);
}

/// An error about a slot, a relay, a worker, a program or a place names it last.
pub proof fn lemma_errors_name_their_subject(slot: usize, s: String, method: Method)
    ensures
        ends_with(
            loom::loom_error_text(LoomError::ParseKey { slot }),
            number::decimal(slot as nat),
        ),
        ends_with(
            loom::loom_error_text(LoomError::InvalidPubkey { slot }),
            number::decimal(slot as nat),
        ),
        ends_with(loom::loom_error_text(LoomError::InvalidRelay { relay: s }), s@),
        ends_with(jobs::job_error_text(JobError::NotAddressed { pubkey: s }), s@),
        ends_with(
            payments::command_error_text(CommandError::NotStarted { program: s }),
            s@,
        ),
        ends_with(client::github_error_text(GitHubError::NotFound { endpoint: s }), s@),
        ends_with(client::github_error_text(GitHubError::Exhausted { method, endpoint: s }), s@),
        container::container_error_text(ContainerError::File { message: s }) == s@,
{
    lemma_ends("Failed to parse worker key for slot "@, number::decimal(slot as nat));
    lemma_ends("Invalid worker pubkey for slot "@, number::decimal(slot as nat));
    lemma_ends("Invalid relay URL for worker nprofile: "@, s@);
    lemma_ends("job is not addressed to worker "@, s@);
    lemma_ends("failed to execute "@, s@);
    lemma_ends("GitHub API resource not found: "@, s@);
    lemma_ends(client::exhausted_text(method), s@);
}

/// A command that failed is told with all its arguments, in order, and with what it printed.
pub proof fn lemma_failed_commands_are_told(args: Vec<String>, stdout: String, stderr: String)
    ensures
        ({
            let m = payments::command_error_text(CommandError::Failed { args, stdout, stderr });
            &&& ends_with(m, stderr@ + stdout@)
            &&& search::contains_text(m, text::joined(args.deep_view(), " "@))
        }),
        ({
            let m = container::container_error_text(ContainerError::Failed { args, stderr });
            &&& ends_with(m, stderr@)
            &&& search::contains_text(m, text::joined(args.deep_view(), " "@))
        }),
{
    let all = text::joined(args.deep_view(), " "@);
    let m = payments::command_error_text(CommandError::Failed { args, stdout, stderr });
    let a = "cdk-cli "@ + all + " failed: "@;
    assert(m =~= a + (stderr@ + stdout@));
    lemma_ends(a, stderr@ + stdout@);
    assert(m =~= "cdk-cli "@ + all + (" failed: "@ + stderr@ + stdout@));
    texts::lemma_part_is_found("cdk-cli "@, all, " failed: "@ + stderr@ + stdout@);
    let n = container::container_error_text(ContainerError::Failed { args, stderr });
    lemma_ends("nixos-container "@ + all + " failed: "@, stderr@);
    assert(n =~= "nixos-container "@ + all + (" failed: "@ + stderr@));
    texts::lemma_part_is_found("nixos-container "@, all, " failed: "@ + stderr@);
}

/// A payment below the minimum is told with what was received and what is required, in its unit.
pub proof fn lemma_payments_below_the_minimum_are_told(unit: String, received: u64, required: u64)
    ensures
        ({
            let m = payments::payment_error_text(
                PaymentError::BelowMinimum { received, required, unit },
            );
            &&& search::contains_text(
                m,
                "received "@ + number::decimal(received as nat) + " "@ + unit@,
            )
            &&& ends_with(m, "required "@ + number::decimal(required as nat) + " "@ + unit@)
        }),
{
    lemma_literals();
    lemma_two_amounts(
        "payment below minimum: "@,
        "received "@,
        number::decimal(received as nat),
        " "@ + unit@,
        ", "@,
        "required "@,
        number::decimal(required as nat),
    );
    let m = payments::payment_error_text(PaymentError::BelowMinimum { received, required, unit });
    lemma_regrouped(
        "payment below minimum: "@ + "received "@,
        number::decimal(received as nat),
        " "@,
        unit@,
        ", "@ + "required "@,
        number::decimal(required as nat),
    );
    lemma_three("received "@, number::decimal(received as nat), " "@, unit@);
    lemma_three("required "@, number::decimal(required as nat), " "@, unit@);
}

proof fn lemma_three(a: Seq<char>, b: Seq<char>, c: Seq<char>, d: Seq<char>)
    ensures
        a + b + c + d == a + b + (c + d),
{
    assert(a + b + c + d =~= a + b + (c + d));
}

proof fn lemma_regrouped(
    a: Seq<char>,
    r: Seq<char>,
    sp: Seq<char>,
    u: Seq<char>,
    b: Seq<char>,
    q: Seq<char>,
)
    ensures
        a + r + sp + u + b + q + sp + u == a + r + (sp + u) + b + q + (sp + u),
{
    assert(a + r + sp + u + b + q + sp + u =~= a + r + (sp + u) + b + q + (sp + u));
}

proof fn lemma_two_amounts(
    p: Seq<char>,
    x: Seq<char>,
    r: Seq<char>,
    u: Seq<char>,
    c: Seq<char>,
    y: Seq<char>,
    q: Seq<char>,
)
    ensures
        search::contains_text((p + x) + r + u + (c + y) + q + u, x + r + u),
        ends_with((p + x) + r + u + (c + y) + q + u, y + q + u),
{
    let m = (p + x) + r + u + (c + y) + q + u;
    let (got, need) = (x + r + u, y + q + u);
    assert(m =~= p + got + (c + need));
    texts::lemma_part_is_found(p, got, c + need);
    assert(m =~= (p + got + c) + need);
    lemma_ends(p + got + c, need);
}

/// An error about a mint and a unit names both.
pub proof fn lemma_mints_and_units_are_told(mint_url: String, unit: String)
    ensures
        ({
            let m = payments::payment_error_text(PaymentError::NoPrice { mint_url, unit });
            search::contains_text(m, "mint "@ + mint_url@) && ends_with(m, "unit "@ + unit@)
        }),
        ({
            let m = payments::payment_error_text(PaymentError::NoIncrease { mint_url, unit });
            search::contains_text(m, "mint "@ + mint_url@ + (" "@ + unit@))
        }),
        ({
            let m = payments::payment_error_text(PaymentError::BalanceOverflow { mint_url, unit });
            search::contains_text(m, "mint "@ + mint_url@ + (" "@ + unit@))
        }),
{
    lemma_literals();
    lemma_mint_then_unit(
        "no configured price for "@,
        "mint "@,
        mint_url@,
        " and "@,
        "unit "@,
        unit@,
    );
    lemma_mint_and_unit("balance for "@, "mint "@, mint_url@, " "@, unit@, " did not increase"@);
    lemma_mint_and_unit("balance for "@, "mint "@, mint_url@, " "@, unit@, " is too large"@);
}

proof fn lemma_mint_then_unit(
    p: Seq<char>,
    x: Seq<char>,
    mint: Seq<char>,
    c: Seq<char>,
    y: Seq<char>,
    unit: Seq<char>,
)
    ensures
        search::contains_text((p + x) + mint + (c + y) + unit, x + mint),
        ends_with((p + x) + mint + (c + y) + unit, y + unit),
{
    let m = (p + x) + mint + (c + y) + unit;
    assert(m =~= p + (x + mint) + (c + (y + unit)));
    texts::lemma_part_is_found(p, x + mint, c + (y + unit));
    assert(m =~= (p + x + mint + c) + (y + unit));
    lemma_ends(p + x + mint + c, y + unit);
}

proof fn lemma_mint_and_unit(
    p: Seq<char>,
    x: Seq<char>,
    mint: Seq<char>,
    sp: Seq<char>,
    unit: Seq<char>,
    z: Seq<char>,
)
    ensures
        search::contains_text((p + x) + mint + sp + unit + z, x + mint + (sp + unit)),
{
    let m = (p + x) + mint + sp + unit + z;
    assert(m =~= p + (x + mint + (sp + unit)) + z);
    texts::lemma_part_is_found(p, x + mint + (sp + unit), z);
}

proof fn lemma_literals()
    ensures
        "payment below minimum: received "@ == "payment below minimum: "@ + "received "@,
        ", required "@ == ", "@ + "required "@,
        "no configured price for mint "@ == "no configured price for "@ + "mint "@,
        " and unit "@ == " and "@ + "unit "@,
        "balance for mint "@ == "balance for "@ + "mint "@,
{
    reveal_strlit("payment below minimum: received ");
    reveal_strlit("payment below minimum: ");
    reveal_strlit("received ");
    assert("payment below minimum: received "@ =~= "payment below minimum: "@ + "received "@);
    reveal_strlit(", required ");
    reveal_strlit(", ");
    reveal_strlit("required ");
    assert(", required "@ =~= ", "@ + "required "@);
    reveal_strlit("no configured price for mint ");
    reveal_strlit("no configured price for ");
    reveal_strlit("mint ");
    assert("no configured price for mint "@ =~= "no configured price for "@ + "mint "@);
    reveal_strlit(" and unit ");
    reveal_strlit(" and ");
    reveal_strlit("unit ");
    assert(" and unit "@ =~= " and "@ + "unit "@);
    reveal_strlit("balance for mint ");
    reveal_strlit("balance for ");
    assert("balance for mint "@ =~= "balance for "@ + "mint "@);
}

} // verus!
