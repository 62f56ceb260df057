//! Laws on the making of a container, over all the stages that it goes through.

use vstd::prelude::*;

use crate::container;
use crate::container::{ContainerError, ContainerManager};
use crate::laws::containers;
use crate::spawn;
use crate::spawn::{SpawnAction, SpawnStage};

verus! {

/// The making of a container, as a whole: its name, the stages, and the replies.
pub struct Making {
    pub name: Seq<char>,
    pub stages: Seq<SpawnStage>,
    pub replies: Seq<Result<String, ContainerError>>,
}

impl Making {
    /// Whether each stage follows from the one before it.
    pub open spec fn wf(self) -> bool {
        &&& self.stages.len() == self.replies.len() + 1
        &&& forall|k: int|
            0 <= k < self.replies.len() ==> spawn::is_spawn_step(
                self.name,
                #[trigger] self.stages[k],
                self.replies[k],
                self.stages[k + 1],
            )
    }
}

/// The network of a stage.
pub open spec fn subnet_of(stage: SpawnStage) -> Option<u8> {
    match stage {
        SpawnStage::ListExisting { subnet } => Some(subnet),
        SpawnStage::CleanExisting { subnet } => Some(subnet),
        SpawnStage::CleanArtifacts { subnet } => Some(subnet),
        SpawnStage::WriteSettings { subnet } => Some(subnet),
        SpawnStage::WriteToken { subnet } => Some(subnet),
        SpawnStage::Create { subnet } => Some(subnet),
        _ => None,
    }
}

/// A container is created in the network that was chosen for it.
pub proof fn lemma_the_network_is_kept(making: Making, i: int, k: int)
    requires
        making.wf(),
        0 <= i <= k < making.stages.len(),
        subnet_of(making.stages[i]) is Some,
    ensures
        subnet_of(making.stages[k]) is None || subnet_of(making.stages[k]) == subnet_of(
            making.stages[i],
        ),
        !(making.stages[k] is ListUsed) && !(making.stages[k] is ShowAddress),
    decreases k,
{
    if i < k {
        let j = k - 1;
        lemma_the_network_is_kept(making, i, j);
        assert(spawn::is_spawn_step(
            making.name,
            making.stages[j],
            making.replies[j],
            making.stages[j + 1],
        ));
    }
}

/// The replies that were answered, of those from the moment `from` up to the moment `to`.
pub open spec fn answers(
    replies: Seq<Result<String, ContainerError>>,
    from: int,
    to: int,
) -> Seq<Seq<char>>
    decreases to - from,
{
    if to <= from {
        seq![]
    } else {
        match replies[to - 1] {
            Ok(ip) => answers(replies, from, to - 1).push(ip@),
            Err(_) => answers(replies, from, to - 1),
        }
    }
}

/// An answer is among the answers.
proof fn lemma_answers(
    replies: Seq<Result<String, ContainerError>>,
    from: int,
    to: int,
    i: int,
)
    requires
        from <= i < to,
        replies[i] is Ok,
    ensures
        answers(replies, from, to).contains(replies[i]->Ok_0@),
    decreases to - from,
{
    let all = answers(replies, from, to);
    if i == to - 1 {
        assert(all.last() == replies[i]->Ok_0@);
        assert(all[all.len() - 1] == replies[i]->Ok_0@);
    } else {
        lemma_answers(replies, from, to - 1, i);
        let before = answers(replies, from, to - 1);
        let j = choose|j: int| 0 <= j < before.len() && before[j] == replies[i]->Ok_0@;
        assert(all[j] == before[j]);
    }
}

/// Every container that was listed is asked for its address, in order and none left out, and what was
/// answered is kept.
pub proof fn lemma_every_container_is_asked(making: Making, output: String, i: int)
    requires
        making.wf(),
        making.stages[0] is ListUsed,
        making.replies.len() > 0,
        making.replies[0] == Ok::<String, ContainerError>(output),
        0 <= i < container::all_containers(output@).len(),
        i + 1 < making.stages.len(),
    ensures
        making.stages[i + 1] matches SpawnStage::ShowAddress { containers, next, ips } && {
            &&& containers.deep_view() == container::all_containers(output@)
            &&& next == i
            &&& ips.deep_view() == answers(making.replies, 1, i + 1)
        },
    decreases i,
{
    let first = 0int;
    assert(spawn::is_spawn_step(
        making.name,
        making.stages[first],
        making.replies[first],
        making.stages[first + 1],
    ));
    if i == 0 {
        if let SpawnStage::ShowAddress { containers, next, ips } = making.stages[1] {
            assert(ips.deep_view() =~= answers(making.replies, 1, 1));
        }
    } else {
        lemma_every_container_is_asked(making, output, i - 1);
        assert(spawn::is_spawn_step(
            making.name,
            making.stages[i],
            making.replies[i],
            making.stages[i + 1],
        ));
        if let SpawnStage::ShowAddress { containers: c, next: n, ips: before } = making.stages[i] {
            assert(c.deep_view().len() == c@.len());
            if let SpawnStage::ShowAddress { containers, next, ips } = making.stages[i + 1] {
                assert(containers.deep_view() =~= c.deep_view());
                assert(ips.deep_view() =~= answers(making.replies, 1, i + 1));
            }
        }
    }
}

/// The network that is chosen is that of no address that was answered, as long as one of the networks
/// from 100 to 199 is free.
pub proof fn lemma_the_network_is_free(making: Making, output: String, free: nat, i: int)
    requires
        making.wf(),
        making.stages[0] is ListUsed,
        making.replies.len() > 0,
        making.replies[0] == Ok::<String, ContainerError>(output),
        making.stages.len() > container::all_containers(output@).len() + 1,
        100 <= free <= 199,
        forall|j: int|
            1 <= j <= container::all_containers(output@).len() ==> (
            #[trigger] making.replies[j] matches Ok(ip) ==> container::third_octet(ip@) != Some(
                free,
            )),
        1 <= i <= container::all_containers(output@).len(),
    ensures
        ({
            let n = container::all_containers(output@).len() as int;
            making.stages[n + 1] matches SpawnStage::ListExisting { subnet } && {
                &&& 100 <= subnet <= 199
                &&& making.replies[i] matches Ok(ip) ==> container::third_octet(ip@) != Some(
                    subnet as nat,
                )
            }
        }),
{
    let n = container::all_containers(output@).len() as int;
    lemma_every_container_is_asked(making, output, n - 1);
    assert(spawn::is_spawn_step(
        making.name,
        making.stages[n],
        making.replies[n],
        making.stages[n + 1],
    ));
    if let SpawnStage::ShowAddress { containers: c, next, ips } = making.stages[n] {
        assert(c.deep_view().len() == c@.len());
        let known = spawn::answered(ips@, making.replies[n]).map_values(|s: String| s@);
        let all = answers(making.replies, 1, n + 1);
        assert(known =~= all) by {
            assert(ips.deep_view() =~= answers(making.replies, 1, n));
        }
        if let SpawnStage::ListExisting { subnet } = making.stages[n + 1] {
            containers::lemma_networks_are_free(known, subnet as nat);
            assert(containers::is_unused(known, free)) by {
                assert forall|k: int| 0 <= k < known.len() implies container::third_octet(
                    #[trigger] known[k],
                ) != Some(free) by {
                    lemma_answers_come_from(making.replies, 1, n + 1, k);
                }
            }
            assert(containers::is_unused(known, subnet as nat));
            if let Ok(ip) = making.replies[i] {
                lemma_answers(making.replies, 1, n + 1, i);
                let k = choose|k: int| 0 <= k < known.len() && known[k] == ip@;
                assert(container::third_octet(known[k]) != Some(subnet as nat));
            }
        }
    }
}

proof fn lemma_answers_come_from(
    replies: Seq<Result<String, ContainerError>>,
    from: int,
    to: int,
    k: int,
)
    requires
        0 <= k < answers(replies, from, to).len(),
    ensures
        exists|j: int|
            from <= j < to && (#[trigger] replies[j] matches Ok(ip) && ip@ == answers(
                replies,
                from,
                to,
            )[k]),
    decreases to - from,
{
    let before = answers(replies, from, to - 1);
    if k < before.len() {
        lemma_answers_come_from(replies, from, to - 1, k);
        let j = choose|j: int|
            from <= j < to - 1 && (#[trigger] replies[j] matches Ok(ip) && ip@ == before[k]);
        assert(replies[j] matches Ok(ip) && ip@ == answers(replies, from, to)[k]);
    } else {
        assert(replies[to - 1] matches Ok(ip) && ip@ == answers(replies, from, to)[k]);
    }
}

/// A container of the same name is cleaned up first, and only where there is one.
pub proof fn lemma_an_existing_container_is_cleaned(making: Making, k: int, output: String)
    requires
        making.wf(),
        0 <= k < making.replies.len(),
        making.stages[k] is ListExisting,
        making.replies[k] == Ok::<String, ContainerError>(output),
    ensures
        making.stages[k + 1] is CleanExisting <==> container::all_containers(output@).contains(
            making.name,
        ),
        making.stages[k + 1] is CleanArtifacts <==> !container::all_containers(output@).contains(
            making.name,
        ),
        k + 1 < making.replies.len() && making.stages[k + 1] is CleanExisting
            ==> making.stages[k + 2] is CleanArtifacts,
{
    assert(spawn::is_spawn_step(
        making.name,
        making.stages[k],
        making.replies[k],
        making.stages[k + 1],
    ));
    let j = k + 1;
    if j < making.replies.len() {
        assert(spawn::is_spawn_step(
            making.name,
            making.stages[j],
            making.replies[j],
            making.stages[j + 1],
        ));
    }
}

/// Where all goes well, the leftovers are removed, the settings and the token are written, the container
/// is created, it gets the token, it is started, the token is removed, and the result is its name.
pub proof fn lemma_how_a_container_is_made(making: Making, k: int, subnet: u8)
    requires
        making.wf(),
        0 <= k,
        k + 7 < making.stages.len(),
        making.stages[k] == (SpawnStage::CleanArtifacts { subnet }),
        forall|i: int| k < i < k + 7 ==> #[trigger] making.replies[i] is Ok,
    ensures
        making.stages[k + 1] == (SpawnStage::WriteSettings { subnet }),
        making.stages[k + 2] == (SpawnStage::WriteToken { subnet }),
        making.stages[k + 3] == (SpawnStage::Create { subnet }),
        making.stages[k + 4] is InstallToken,
        making.stages[k + 5] is Start,
        making.stages[k + 6] is RemoveToken,
        making.stages[k + 7] matches SpawnStage::Done { result } && (result matches Ok(n) && n@
            == making.name),
{
    let n = making.name;
    let (s, r) = (making.stages, making.replies);
    let (a, b, c, d, e, f, g) = (k, k + 1, k + 2, k + 3, k + 4, k + 5, k + 6);
    assert(spawn::is_spawn_step(n, s[a], r[a], s[a + 1]));
    assert(r[b] is Ok);
    assert(spawn::is_spawn_step(n, s[b], r[b], s[b + 1]));
    assert(r[c] is Ok);
    assert(spawn::is_spawn_step(n, s[c], r[c], s[c + 1]));
    assert(r[d] is Ok);
    assert(spawn::is_spawn_step(n, s[d], r[d], s[d + 1]));
    assert(r[e] is Ok);
    assert(spawn::is_spawn_step(n, s[e], r[e], s[e + 1]));
    assert(r[f] is Ok);
    assert(spawn::is_spawn_step(n, s[f], r[f], s[f + 1]));
    assert(spawn::is_spawn_step(n, s[g], r[g], s[g + 1]));
}

/// A failure that ends the making is the one that is reported, in the next stage or, where something
/// has to be undone, in the one behind it. What cannot be cleaned up or removed, and a container that
/// gives no address, do not end it.
pub proof fn lemma_failures_are_reported(making: Making, k: int, e: ContainerError)
    requires
        making.wf(),
        0 <= k < making.replies.len(),
        making.replies[k] == Err::<String, ContainerError>(e),
        !(making.stages[k] is Done),
    ensures
        ({
            let failure = SpawnStage::Done { result: Err(e) };
            let stage = making.stages[k];
            &&& stage is ListUsed || stage is ListExisting || stage is WriteSettings
                || stage is WriteToken || stage is InstallToken ==> making.stages[k + 1] == failure
            &&& stage is Create ==> making.stages[k + 1] is UndoCreate && (k + 1
                < making.replies.len() ==> making.stages[k + 2] == failure)
            &&& stage is Start ==> making.stages[k + 1] is UndoStart && (k + 1
                < making.replies.len() ==> making.stages[k + 2] == failure)
            &&& stage is ShowAddress || stage is CleanExisting || stage is CleanArtifacts
                ==> !(making.stages[k + 1] is Done)
            &&& stage is RemoveToken ==> (making.stages[k + 1] matches SpawnStage::Done { result }
                && result is Ok)
        }),
{
    let n = making.name;
    let (s, r) = (making.stages, making.replies);
    assert(spawn::is_spawn_step(n, s[k], r[k], s[k + 1]));
    let j = k + 1;
    if j < r.len() {
        assert(spawn::is_spawn_step(n, s[j], r[j], s[j + 1]));
    }
}

/// The token reaches the container and stays nowhere else: the file that is copied into it is the one
/// that the token was written to, and that file is removed, whether the container was made or could not
/// be created.
pub proof fn lemma_the_token_reaches_the_container(
    manager: ContainerManager,
    name: Seq<char>,
    token: Seq<char>,
    subnet: u8,
    error: ContainerError,
    written: SpawnAction,
    copied: SpawnAction,
    removed: SpawnAction,
    undone: SpawnAction,
)
    requires
        name.len() > 0,
        name.last() != '/',
        spawn::is_spawn_action(manager, name, token, SpawnStage::WriteToken { subnet }, written),
        spawn::is_spawn_action(manager, name, token, SpawnStage::InstallToken, copied),
        spawn::is_spawn_action(manager, name, token, SpawnStage::RemoveToken, removed),
        spawn::is_spawn_action(manager, name, token, SpawnStage::UndoCreate { error }, undone),
    ensures
        written matches SpawnAction::WriteSecret { path, content } && content@ == token && (
        copied matches SpawnAction::CopySecret { from, to, .. } && from@ == path@ && to@
            == "/var/lib/nixos-containers/"@ + name + "/var/lib/github-runner-token"@) && (
        removed matches SpawnAction::RemoveFile { path: p } && p@ == path@) && (
        undone matches SpawnAction::UndoCreate { token_file } && token_file@ == path@),
{
    reveal_strlit("/var/lib/nixos-containers/");
    reveal_strlit("var/lib/github-runner-token");
    reveal_strlit("/var/lib/github-runner-token");
    if let SpawnAction::CopySecret { from, to, .. } = copied {
        let root = "/var/lib/nixos-containers/"@ + name;
        let file = "var/lib/github-runner-token"@;
        assert(root.last() == name.last());
        assert(to@ == root.push('/') + file);
        assert("/var/lib/github-runner-token"@ =~= seq!['/'] + file);
        assert(to@ =~= "/var/lib/nixos-containers/"@ + name + "/var/lib/github-runner-token"@);
    }
}

/// What is done at the other stages: containers are listed, each of them is asked for its address, the
/// settings are written under the name of the container, the container is started, and one that is in
/// the way or could not be started is cleaned up.
pub proof fn lemma_what_is_done_at_each_stage(
    manager: ContainerManager,
    name: Seq<char>,
    token: Seq<char>,
    stage: SpawnStage,
    action: SpawnAction,
)
    requires
        spawn::is_spawn_action(manager, name, token, stage, action),
    ensures
        stage is ListUsed || stage is ListExisting ==> (action matches SpawnAction::Run { args }
            && args.deep_view() == seq!["list"@]),
        stage matches SpawnStage::ShowAddress { containers, next, .. } ==> (next
            < containers@.len() ==> (action matches SpawnAction::Run { args } && args.deep_view()
            == seq!["show-ip"@, containers@[next as int]@])),
        stage is CleanExisting || stage is UndoStart ==> action is CleanContainer,
        stage is CleanArtifacts ==> action is CleanArtifacts,
        stage is WriteSettings ==> (action matches SpawnAction::WriteSettings { dir, path, .. }
            && dir@ == "/etc/systemd/nspawn"@ && path@ == "/etc/systemd/nspawn"@ + seq!['/'] + (name
            + ".nspawn"@)),
        stage matches SpawnStage::Create { subnet } ==> (action matches SpawnAction::Run { args }
            && args.deep_view() == spawn::create_args(
            name,
            manager.container_template@,
            subnet as nat,
        )),
        stage is Start ==> (action matches SpawnAction::Run { args } && args.deep_view() == seq![
            "start"@,
            name,
        ]),
        stage is Done ==> action is Finished,
{
    reveal_strlit("/etc/systemd/nspawn");
    let dir = "/etc/systemd/nspawn"@;
    assert(dir.last() == 'n');
    assert(dir.push('/') =~= dir + seq!['/']);
}

} // verus!
