//! Laws on the commands of the wallet and on what is left of a container.

use vstd::prelude::*;

use crate::config::WorkerPrice;
use crate::container::{ContainerArtifacts, ContainerManager};
use crate::laws::messages;
use crate::laws::texts;
use crate::payments;
use crate::payments::{CommandError, CommandOutcome, PaymentClient, WalletCommand};
use crate::text;
use crate::wallet_output;

verus! {

/// The token of the change is the first one on the standard output, and the first one on the standard
/// error only where there is none on the standard output.
pub proof fn lemma_change_tokens(success: bool, stdout: String, stderr: String)
    ensures
        ({
            let o = CommandOutcome::Exited { success, stdout, stderr };
            let out = wallet_output::first_token(text::words(stdout@));
            let err = wallet_output::first_token(text::words(stderr@));
            &&& out is Some ==> PaymentClient::change_token_of(o) == out
            &&& out is None && err is Some ==> PaymentClient::change_token_of(o) == err
            &&& out is None && err is None ==> PaymentClient::change_token_of(o) is None
        }),
{
}

/// How a wallet command fails: where it could not be started, the program is named; where it ended
/// without success, its own arguments and what it printed are kept. A command that succeeded has no
/// error.
pub proof fn lemma_failed_commands(
    client: PaymentClient,
    command: WalletCommand,
    o: CommandOutcome,
    e: CommandError,
)
    requires
        payments::is_command_error(client, command, o, e),
    ensures
        o is NotStarted <==> e is NotStarted,
        o is NoStdin <==> e is NoStdin,
        o is StdinNotWritten <==> e is StdinNotWritten,
        o is NotAwaited <==> e is NotAwaited,
        e matches CommandError::NotStarted { program } ==> program@ == client.cli_path@,
        e matches CommandError::Failed { args, stdout, stderr } ==> (
        o matches CommandOutcome::Exited { success, stdout: out, stderr: err } && !success && out@
            == stdout@ && err@ == stderr@ && args.deep_view() == command.args.deep_view()),
        !(o matches CommandOutcome::Exited { success, .. } && success),
{
}

/// The wallet looks after what is pending in every configured unit, once each: a price has its command,
/// a command belongs to a price, and no two commands are for one unit. The command takes no input.
pub proof fn lemma_pending_commands(
    prices: Seq<WorkerPrice>,
    commands: Seq<WalletCommand>,
    p: int,
    i: int,
    j: int,
)
    requires
        payments::are_pending_commands(prices, commands),
        0 <= p < prices.len(),
        0 <= i < j < commands.len(),
    ensures
        exists|k: int| 0 <= k < commands.len() && (#[trigger] commands[k]).unit@ == prices[p].unit@,
        exists|q: int| 0 <= q < prices.len() && (#[trigger] prices[q]).unit@ == commands[i].unit@,
        commands[i].unit@ != commands[j].unit@,
        commands[i].args@.len() == 1,
        commands[i].args@[0]@ == "check-pending"@,
        commands[i].stdin is None,
{
    assert(wallet_output::is_unit_of(prices, prices[p].unit@));
    assert(payments::is_command(commands[i], commands[i].unit@, seq!["check-pending"@], None));
    assert(commands[i].args.deep_view().len() == commands[i].args@.len());
    assert(commands[i].args.deep_view()[0] == commands[i].args@[0]@);
    assert(wallet_output::is_unit_of(prices, commands[i].unit@));
    crate::search::lemma_text_less_total(commands[i].unit@, commands[j].unit@);
}

/// What is left of a container: every place is named after the container, and lies in the directory of
/// its kind. The token lies in the state directory.
pub proof fn lemma_what_is_left_of_a_container(
    manager: ContainerManager,
    name: Seq<char>,
    a: ContainerArtifacts,
)
    requires
        manager.are_artifacts(name, a),
    ensures
        a.nspawn_config@ == "/etc/systemd/nspawn/"@ + name + ".nspawn"@,
        messages::ends_with(a.unix_export@, name),
        "/run/systemd/nspawn/unix-export/"@.is_prefix_of(a.unix_export@),
        messages::ends_with(a.profile_dir@, name),
        "/nix/var/nix/profiles/per-container/"@.is_prefix_of(a.profile_dir@),
        messages::ends_with(a.container_root@, name),
        "/var/lib/nixos-containers/"@.is_prefix_of(a.container_root@),
        messages::ends_with(a.interface@, name),
        a.interface@.len() == name.len() + 3,
        messages::ends_with(a.token_file@, name + ".token"@),
        manager.state_dir@.is_prefix_of(a.token_file@),
{
    reveal_strlit("ve-");
    lemma_named("/run/systemd/nspawn/unix-export/"@, name);
    lemma_named("/nix/var/nix/profiles/per-container/"@, name);
    lemma_named("/var/lib/nixos-containers/"@, name);
    lemma_named("ve-"@, name);
    texts::lemma_paths_are_joined(manager.state_dir@, name + ".token"@);
}

proof fn lemma_named(dir: Seq<char>, name: Seq<char>)
    ensures
        messages::ends_with(dir + name, name),
        dir.is_prefix_of(dir + name),
        (dir + name).len() == dir.len() + name.len(),
{
    assert(name =~= (dir + name).skip((dir + name).len() - name.len()));
    assert(dir =~= (dir + name).take(dir.len() as int));
}

} // verus!
