//! Laws on what workers are told, and on what is told of them.

use vstd::prelude::*;

use crate::config::{Config, WorkerPrice, WorkerSoftware};
use crate::event;
use crate::json;
use crate::laws::containers;
use crate::laws::events;
use crate::loom;
use crate::loom::{LoadedIdentity, LoomError, WorkerIdentity, WorkerRuntimeConfig};
use crate::number;
use crate::search;
use crate::text;

verus! {

/// Whether the JSON text of a runtime configuration has a member with this name and value.
pub open spec fn tells(c: WorkerRuntimeConfig, name: Seq<char>, value: Seq<char>) -> bool {
    search::contains_text(
        json::object_text(loom::runtime_members(c)),
        events::member_text(name, value),
    )
}

proof fn lemma_told(c: WorkerRuntimeConfig, i: int)
    requires
        0 <= i < 14,
    ensures
        tells(c, loom::runtime_members(c)[i].name, loom::runtime_members(c)[i].value),
{
    events::lemma_members_are_written(loom::runtime_members(c), i);
}

/// A worker is told its limits: how short and how long a job may be, when it is stopped, and the port.
pub proof fn lemma_workers_are_told_their_limits(c: WorkerRuntimeConfig)
    ensures
        tells(c, "min_duration"@, number::decimal(c.min_duration as nat)),
        tells(c, "max_duration"@, number::decimal(c.max_duration as nat)),
        tells(c, "timeout_seconds"@, number::decimal(c.timeout_seconds as nat)),
        tells(c, "http_port"@, number::decimal(c.http_port as nat)),
{
    lemma_told(c, 3);
    lemma_told(c, 4);
    lemma_told(c, 9);
    lemma_told(c, 10);
}

/// A worker is told where its programs and its directory are.
pub proof fn lemma_workers_are_told_their_paths(c: WorkerRuntimeConfig)
    ensures
        tells(c, "act_path"@, json::json_string(c.act_path@)),
        tells(c, "ngit_path"@, json::json_string(c.ngit_path@)),
        tells(c, "git_remote_nostr_path"@, json::json_string(c.git_remote_nostr_path@)),
        tells(c, "work_dir"@, json::json_string(c.work_dir@)),
        tells(c, "default_shell"@, json::json_string(c.default_shell@)),
{
    lemma_told(c, 5);
    lemma_told(c, 6);
    lemma_told(c, 7);
    lemma_told(c, 8);
    lemma_told(c, 11);
}

/// A worker is told all relays, servers and mints, all software and all prices, in order.
pub proof fn lemma_workers_are_told_their_lists(c: WorkerRuntimeConfig)
    ensures
        tells(c, "relays"@, json::strings_text(c.relays.deep_view())),
        tells(c, "blossom_servers"@, json::strings_text(c.blossom_servers.deep_view())),
        tells(c, "cashu_mints"@, json::strings_text(c.cashu_mints.deep_view())),
        tells(
            c,
            "software"@,
            json::array_text(
                Seq::new(c.software@.len(), |i: int| loom::software_json(c.software@[i])),
            ),
        ),
        tells(
            c,
            "prices"@,
            json::array_text(Seq::new(c.prices@.len(), |i: int| loom::price_json(c.prices@[i]))),
        ),
{
    lemma_told(c, 0);
    lemma_told(c, 1);
    lemma_told(c, 2);
    lemma_told(c, 12);
    lemma_told(c, 13);
    assert(c.software@.map_values(|s: WorkerSoftware| loom::software_json(s)) =~= Seq::new(
        c.software@.len(),
        |i: int| loom::software_json(c.software@[i]),
    ));
    assert(c.prices@.map_values(|p: WorkerPrice| loom::price_json(p)) =~= Seq::new(
        c.prices@.len(),
        |i: int| loom::price_json(c.prices@[i]),
    ));
}

/// Whether an object has a member with this name and text.
pub open spec fn has_member(object: Seq<char>, name: Seq<char>, s: Seq<char>) -> bool {
    search::contains_text(object, events::member_text(name, json::json_string(s)))
}

/// A piece of software is told by its name, its version and its path.
pub proof fn lemma_software_is_told(s: WorkerSoftware)
    ensures
        has_member(loom::software_json(s), "name"@, s.name@),
        has_member(loom::software_json(s), "version"@, s.version@),
        has_member(loom::software_json(s), "path"@, s.path@),
{
    let members = seq![
        json::member("name"@, json::json_string(s.name@)),
        json::member("version"@, json::json_string(s.version@)),
        json::member("path"@, json::json_string(s.path@)),
    ];
    events::lemma_members_are_written(members, 0);
    events::lemma_members_are_written(members, 1);
    events::lemma_members_are_written(members, 2);
}

/// A price is told by its mint, the price of a second and its unit.
pub proof fn lemma_prices_are_told(p: WorkerPrice)
    ensures
        has_member(loom::price_json(p), "mint_url"@, p.mint_url@),
        has_member(loom::price_json(p), "price_per_second"@, p.price_per_second@),
        has_member(loom::price_json(p), "unit"@, p.unit@),
{
    let members = seq![
        json::member("mint_url"@, json::json_string(p.mint_url@)),
        json::member("price_per_second"@, json::json_string(p.price_per_second@)),
        json::member("unit"@, json::json_string(p.unit@)),
    ];
    events::lemma_members_are_written(members, 0);
    events::lemma_members_are_written(members, 1);
    events::lemma_members_are_written(members, 2);
}

/// The profile of a worker shows its name with that of its container, and its description.
pub proof fn lemma_profiles_show_the_worker(config: Config, container_name: Seq<char>)
    ensures
        has_member(
            loom::metadata_content(config, container_name),
            "name"@,
            config.worker_name@ + " "@ + container_name,
        ),
        has_member(
            loom::metadata_content(config, container_name),
            "display_name"@,
            config.worker_name@ + " "@ + container_name,
        ),
        has_member(
            loom::metadata_content(config, container_name),
            "about"@,
            config.worker_description@,
        ),
{
    let name = config.worker_name@ + " "@ + container_name;
    let members = seq![
        json::member("name"@, json::json_string(name)),
        json::member("display_name"@, json::json_string(name)),
        json::member("about"@, json::json_string(config.worker_description@)),
    ];
    events::lemma_members_are_written(members, 0);
    events::lemma_members_are_written(members, 1);
    events::lemma_members_are_written(members, 2);
}

/// The relay that a profile is refused for is one of its relays, it is not valid, and those before it
/// are. Without such a relay all are valid.
pub proof fn lemma_first_invalid_relay_is_reported(relays: Seq<Seq<char>>, i: int)
    requires
        0 <= i < relays.len(),
    ensures
        event::relay_text(relays[i]) is None ==> loom::first_invalid_relay(relays) is Some,
        event::relay_text(relays[i]) is None && (forall|j: int|
            0 <= j < i ==> event::relay_text(#[trigger] relays[j]) is Some)
            ==> loom::first_invalid_relay(relays) == Some(relays[i]),
        loom::first_invalid_relay(relays) == Some(relays[i]) ==> event::relay_text(
            relays[i],
        ) is None,
    decreases relays.len(),
{
    let t = relays.drop_first();
    if i > 0 {
        assert(t[i - 1] == relays[i]);
        lemma_first_invalid_relay_is_reported(t, i - 1);
        if forall|j: int| 0 <= j < i ==> event::relay_text(#[trigger] relays[j]) is Some {
            assert(event::relay_text(relays[0]) is Some);
            assert forall|j: int| 0 <= j < i - 1 implies event::relay_text(
                #[trigger] t[j],
            ) is Some by {
                assert(t[j] == relays[j + 1]);
            }
        }
    } else if event::relay_text(relays[0]) is Some {
        lemma_invalid_is_invalid(t);
    }
}

proof fn lemma_invalid_is_invalid(relays: Seq<Seq<char>>)
    ensures
        loom::first_invalid_relay(relays) matches Some(r) ==> event::relay_text(r) is None,
    decreases relays.len(),
{
    if relays.len() > 0 {
        lemma_invalid_is_invalid(relays.drop_first());
    }
}

/// The slot that a subscription is refused for is that of the first worker whose public key is not one:
/// 64 hexadecimal digits.
pub proof fn lemma_first_invalid_worker_is_reported(workers: Seq<WorkerIdentity>, i: int)
    requires
        0 <= i < workers.len(),
        !event::is_key_hex(workers[i].pubkey@),
        forall|j: int| 0 <= j < i ==> event::is_key_hex((#[trigger] workers[j]).pubkey@),
    ensures
        loom::first_invalid_worker(workers) == Some(workers[i].slot),
    decreases workers.len(),
{
    if i > 0 {
        let t = workers.drop_first();
        assert(event::is_key_hex(workers[0].pubkey@));
        assert(t[i - 1] == workers[i]);
        assert forall|j: int| 0 <= j < i - 1 implies event::is_key_hex(
            (#[trigger] t[j]).pubkey@,
        ) by {
            assert(t[j] == workers[j + 1]);
        }
        lemma_first_invalid_worker_is_reported(t, i - 1);
    }
}

/// Public keys are 64 hexadecimal digits, and nothing else is one.
pub proof fn lemma_public_keys(s: Seq<char>)
    ensures
        event::is_key_hex(s) <==> s.len() == 64 && containers::is_hex(s),
{
    if event::is_key_hex(s) {
        assert forall|i: int| 0 <= i < s.len() implies '0' <= #[trigger] s[i] <= '9' || 'a' <= s[i]
            <= 'f' || 'A' <= s[i] <= 'F' by {
            assert(text::is_hex_digit(s[i]));
        }
    }
    if s.len() == 64 && containers::is_hex(s) {
        assert forall|i: int| 0 <= i < s.len() implies text::is_hex_digit(#[trigger] s[i]) by {
            assert('0' <= s[i] <= '9' || 'a' <= s[i] <= 'f' || 'A' <= s[i] <= 'F');
        }
    }
}

/// The worker of a slot: it has the key that is stored for the slot, white space around it not counted,
/// and nothing is stored then; where none is stored, it has a new key, which is.
pub proof fn lemma_workers_have_the_stored_key(
    l: LoadedIdentity,
    slot: usize,
    stored: Option<Seq<char>>,
)
    requires
        loom::is_loaded(l, slot, stored),
    ensures
        l.identity.slot == slot,
        l.identity.pubkey@ == l.identity.keys.public_key@,
        stored matches Some(s) ==> l.to_store is None && event::parsed_keys(text::trim_spec(s))
            == Some((l.identity.keys.secret_key@, l.identity.pubkey@)),
        stored is None ==> (l.to_store matches Some(s) && event::parsed_keys(
            text::trim_spec(s@),
        ) == Some((l.identity.keys.secret_key@, l.identity.pubkey@))),
{
}

/// A stored key is refused only where it is not one, and the error names the slot.
pub proof fn lemma_unusable_keys_are_reported(slot: usize, stored: Option<Seq<char>>, e: LoomError)
    requires
        loom::is_unusable(slot, stored, e),
    ensures
        e == (LoomError::ParseKey { slot }),
        stored matches Some(s) && event::parsed_keys(text::trim_spec(s)) is None,
{
}

} // verus!
