//! Laws on workers: what their advertisements say.

use vstd::prelude::*;

use crate::config::Config;
use crate::event;
use crate::event::Event;
use crate::json;
use crate::laws::events;
use crate::loom;
use crate::number;
use crate::search;

verus! {

/// Whether `e` is the event that advertises the worker in a container.
pub open spec fn advertises(
    e: Event,
    secret_key: Seq<char>,
    config: Config,
    container_name: Seq<char>,
) -> bool {
    event::is_signed_event(
        e,
        secret_key,
        loom::WORKER_ADVERTISEMENT_KIND,
        loom::advertisement_content(config, container_name),
        loom::advertisement_tags(config),
    )
}

/// The names that the tags of an advertisement can have, in the order in which they come.
pub open spec fn advertisement_names() -> Seq<Seq<char>> {
    seq![
        "S"@,
        "A"@,
        "price"@,
        "metric"@,
        "min_duration"@,
        "max_duration"@,
        "default_shell"@,
        "g"@,
        "relay"@,
    ]
}

proof fn lemma_names_differ()
    ensures
        forall|i: int, j: int|
            0 <= i < j < 9 ==> #[trigger] advertisement_names()[i]
                != #[trigger] advertisement_names()[j],
        forall|i: int| 0 <= i < 9 ==> #[trigger] advertisement_names()[i] != "p"@,
{
    reveal_strlit("S");
    reveal_strlit("A");
    reveal_strlit("price");
    reveal_strlit("metric");
    reveal_strlit("min_duration");
    reveal_strlit("max_duration");
    reveal_strlit("default_shell");
    reveal_strlit("g");
    reveal_strlit("relay");
    reveal_strlit("p");
    let n = advertisement_names();
    assert(n[0].len() == 1 && n[1].len() == 1 && n[2].len() == 5 && n[3].len() == 6);
    assert(n[4].len() == 12 && n[5].len() == 12 && n[6].len() == 13 && n[7].len() == 1);
    assert(n[8].len() == 5);
    assert(n[0][0] == 'S' && n[1][0] == 'A' && n[7][0] == 'g' && "p"@[0] == 'p');
    assert(n[2][0] == 'p' && n[8][0] == 'r' && n[4][1] == 'i' && n[5][1] == 'a');
    assert("p"@.len() == 1);
}

/// Whether the tags offer what is configured: one tag for each piece of software, each price and each
/// relay, in order, and one for the architecture, the metric, each duration, the shell and, where it
/// is known, the place.
pub open spec fn tells_offer(tags: Seq<Seq<Seq<char>>>, config: Config) -> bool {
    &&& events::named(tags, "S"@).len() == config.worker_software@.len()
    &&& forall|i: int|
        0 <= i < config.worker_software@.len() ==> #[trigger] events::named(tags, "S"@)[i] == seq![
            "S"@,
            config.worker_software@[i].name@,
            config.worker_software@[i].version@,
            config.worker_software@[i].path@,
        ]
    &&& events::named(tags, "A"@) == seq![seq!["A"@, config.worker_architecture@]]
    &&& events::named(tags, "price"@).len() == config.worker_prices@.len()
    &&& forall|i: int|
        0 <= i < config.worker_prices@.len() ==> #[trigger] events::named(tags, "price"@)[i]
            == seq![
            "price"@,
            config.worker_prices@[i].mint_url@,
            config.worker_prices@[i].price_per_second@,
            config.worker_prices@[i].unit@,
        ]
    &&& events::named(tags, "metric"@) == seq![seq!["metric"@, "second"@]]
    &&& events::named(tags, "min_duration"@) == seq![
        seq!["min_duration"@, number::decimal(config.worker_min_duration as nat)],
    ]
    &&& events::named(tags, "max_duration"@) == seq![
        seq!["max_duration"@, number::decimal(config.worker_max_duration as nat)],
    ]
    &&& events::named(tags, "default_shell"@) == seq![
        seq!["default_shell"@, config.worker_default_shell@],
    ]
    &&& config.worker_geohash matches Some(g) ==> events::named(tags, "g"@) == seq![
        seq!["g"@, g@],
    ]
    &&& config.worker_geohash is None ==> events::named(tags, "g"@).len() == 0
    &&& events::named(tags, "relay"@).len() == config.relays@.len()
    &&& forall|i: int|
        0 <= i < config.relays@.len() ==> #[trigger] events::named(tags, "relay"@)[i] == seq![
            "relay"@,
            config.relays@[i]@,
        ]
}

/// An advertisement offers exactly what is configured. It has a price tag for every configured price,
/// with its mint, its price and its unit, and no other price tag; and the same holds of the software
/// and the relays. The tags come in a fixed order, and there are no tags with other names.
pub proof fn lemma_advertisements_tell_the_offer(
    e: Event,
    secret_key: Seq<char>,
    config: Config,
    container_name: Seq<char>,
)
    requires
        advertises(e, secret_key, config, container_name),
    ensures
        tells_offer(e.tags.deep_view(), config),
        events::in_order(advertisement_names(), e.tags.deep_view()),
        forall|i: int|
            0 <= i < e.tags.deep_view().len() ==> advertisement_names().contains(
                (#[trigger] e.tags.deep_view()[i])[0],
            ),
{
    lemma_tags_of(config, e.pubkey@);
}

/// Whether the tags tell what an advertisement has to tell.
spec fn is_advertised(tags: Seq<Seq<Seq<char>>>, config: Config) -> bool {
    &&& tells_offer(tags, config)
    &&& events::in_order(advertisement_names(), tags)
    &&& forall|i: int|
        0 <= i < tags.len() ==> advertisement_names().contains((#[trigger] tags[i])[0])
}

proof fn lemma_tags_of(config: Config, author: Seq<char>)
    ensures
        is_advertised(event::signed_tags(loom::advertisement_tags(config), author), config),
{
    let tags = loom::advertisement_tags(config);
    lemma_plain_tags(config);
    lemma_names_of_tags(config);
    lemma_tags_are_kept(config, author);
    lemma_advertised(tags, config);
}

proof fn lemma_advertised(tags: Seq<Seq<Seq<char>>>, config: Config)
    requires
        are_grouped(tags, config),
        events::in_order(advertisement_names(), tags),
        forall|i: int| 0 <= i < tags.len() ==> is_named_below(#[trigger] tags[i], 9),
    ensures
        is_advertised(tags, config),
{
    lemma_grouped_tags(tags, config);
    assert forall|i: int| 0 <= i < tags.len() implies advertisement_names().contains(
        (#[trigger] tags[i])[0],
    ) by {
        assert(is_named_below(tags[i], 9));
    }
}

/// Whether a tag has the name at this place of the list.
spec fn has_name_at(tags: Seq<Seq<Seq<char>>>, n: int) -> bool {
    forall|i: int|
        0 <= i < tags.len() ==> (#[trigger] tags[i]).len() > 0 && tags[i][0]
            == advertisement_names()[n]
}

/// The groups of tags of an advertisement, one for each name.
spec fn groups(config: Config) -> Seq<Seq<Seq<Seq<char>>>> {
    seq![
        loom::software_tags(config.worker_software@),
        seq![seq!["A"@, config.worker_architecture@]],
        loom::price_tags(config.worker_prices@),
        seq![seq!["metric"@, "second"@]],
        seq![seq!["min_duration"@, number::decimal(config.worker_min_duration as nat)]],
        seq![seq!["max_duration"@, number::decimal(config.worker_max_duration as nat)]],
        seq![seq!["default_shell"@, config.worker_default_shell@]],
        loom::geohash_tags(config.worker_geohash),
        loom::relay_tags(config.relays@),
    ]
}

/// The first groups one after the other.
spec fn flat(groups: Seq<Seq<Seq<Seq<char>>>>, n: int) -> Seq<Seq<Seq<char>>>
    decreases n,
{
    if n <= 0 {
        seq![]
    } else {
        flat(groups, n - 1) + groups[n - 1]
    }
}

proof fn lemma_groups(config: Config)
    ensures
        flat(groups(config), 9) == loom::advertisement_tags(config),
        forall|n: int| 0 <= n < 9 ==> has_name_at(#[trigger] groups(config)[n], n),
{
    let g = groups(config);
    reveal_with_fuel(flat, 10);
    assert(flat(g, 9) =~= loom::advertisement_tags(config));
    let names = advertisement_names();
    assert(names[0] == "S"@ && names[1] == "A"@ && names[2] == "price"@ && names[3] == "metric"@);
    assert(names[4] == "min_duration"@ && names[5] == "max_duration"@);
    assert(names[6] == "default_shell"@ && names[7] == "g"@ && names[8] == "relay"@);
    assert(has_name_at(g[0], 0));
    assert(has_name_at(g[1], 1));
    assert(has_name_at(g[2], 2));
    assert(has_name_at(g[3], 3));
    assert(has_name_at(g[4], 4));
    assert(has_name_at(g[5], 5));
    assert(has_name_at(g[6], 6));
    assert(has_name_at(g[7], 7));
    assert(has_name_at(g[8], 8));
    assert forall|n: int| 0 <= n < 9 implies has_name_at(#[trigger] g[n], n) by {
        assert(n == 0 || n == 1 || n == 2 || n == 3 || n == 4 || n == 5 || n == 6 || n == 7 || n
            == 8);
    }
}

/// The tags with a name are those of its group.
proof fn lemma_named_group(groups: Seq<Seq<Seq<Seq<char>>>>, m: int, n: int)
    requires
        0 <= m <= groups.len() == 9,
        0 <= n < 9,
        forall|k: int| 0 <= k < 9 ==> has_name_at(#[trigger] groups[k], k),
    ensures
        events::named(flat(groups, m), advertisement_names()[n]) == if n < m {
            groups[n]
        } else {
            Seq::<Seq<Seq<char>>>::empty()
        },
    decreases m,
{
    let names = advertisement_names();
    let none = Seq::<Seq<Seq<char>>>::empty();
    lemma_names_differ();
    if m > 0 {
        lemma_named_group(groups, m - 1, n);
        let last = groups[m - 1];
        events::lemma_named_in_both(flat(groups, m - 1), last, names[n]);
        assert(has_name_at(last, m - 1));
        if n == m - 1 {
            events::lemma_all_named(last, names[n]);
            assert(none + last =~= last);
        } else {
            assert(names[n] != names[m - 1]);
            events::lemma_none_named(last, names[n]);
            assert(events::named(flat(groups, m - 1), names[n]) + none =~= events::named(
                flat(groups, m - 1),
                names[n],
            ));
        }
    } else {
        events::lemma_none_named(flat(groups, 0), names[n]);
    }
}

proof fn lemma_group_is_found(config: Config, n: int)
    requires
        0 <= n < 9,
    ensures
        is_group(loom::advertisement_tags(config), config, n),
{
    lemma_groups(config);
    lemma_named_group(groups(config), 9, n);
}

/// Whether the tags with a name are those of its group.
spec fn is_group(tags: Seq<Seq<Seq<char>>>, config: Config, n: int) -> bool {
    events::named(tags, advertisement_names()[n]) == groups(config)[n]
}

/// Whether the tags with each name are those of its group.
spec fn are_grouped(tags: Seq<Seq<Seq<char>>>, config: Config) -> bool {
    forall|n: int| 0 <= n < 9 ==> #[trigger] is_group(tags, config, n)
}

proof fn lemma_plain_tags(config: Config)
    ensures
        are_grouped(loom::advertisement_tags(config), config),
{
    assert forall|n: int| 0 <= n < 9 implies #[trigger] is_group(
        loom::advertisement_tags(config),
        config,
        n,
    ) by {
        lemma_group_is_found(config, n);
    }
}

proof fn lemma_grouped_tags(tags: Seq<Seq<Seq<char>>>, config: Config)
    requires
        are_grouped(tags, config),
    ensures
        tells_offer(tags, config),
{
    let names = advertisement_names();
    assert(names[0] == "S"@ && names[1] == "A"@ && names[2] == "price"@ && names[3] == "metric"@);
    assert(names[4] == "min_duration"@ && names[5] == "max_duration"@);
    assert(names[6] == "default_shell"@ && names[7] == "g"@ && names[8] == "relay"@);
    assert(is_group(tags, config, 0));
    assert(is_group(tags, config, 1));
    assert(is_group(tags, config, 2));
    assert(is_group(tags, config, 3));
    assert(is_group(tags, config, 4));
    assert(is_group(tags, config, 5));
    assert(is_group(tags, config, 6));
    assert(is_group(tags, config, 7));
    assert(is_group(tags, config, 8));
}

proof fn lemma_tags_are_kept(config: Config, author: Seq<char>)
    ensures
        event::signed_tags(loom::advertisement_tags(config), author) == loom::advertisement_tags(
            config,
        ),
{
    lemma_names_of_tags(config);
    let tags = loom::advertisement_tags(config);
    assert forall|i: int| 0 <= i < tags.len() implies !event::is_recipient_tag(
        #[trigger] tags[i],
        author,
    ) by {
        lemma_names_differ();
        assert(is_named_below(tags[i], 9));
        let n = choose|n: int|
            0 <= n < 9 && #[trigger] advertisement_names()[n] == tags[i][0];
        assert(advertisement_names()[n] != "p"@);
    }
    events::lemma_signing_keeps_all(tags, author);
}

proof fn lemma_names_of_tags(config: Config)
    ensures
        events::in_order(advertisement_names(), loom::advertisement_tags(config)),
        forall|i: int|
            0 <= i < loom::advertisement_tags(config).len() ==> is_named_below(
                #[trigger] loom::advertisement_tags(config)[i],
                9,
            ),
{
    lemma_groups(config);
    lemma_flat_names(groups(config), 9);
}

/// Whether a tag has one of the first names.
spec fn is_named_below(t: Seq<Seq<char>>, m: int) -> bool {
    t.len() > 0 && exists|n: int| 0 <= n < m && #[trigger] advertisement_names()[n] == t[0]
}

proof fn lemma_flat_names(groups: Seq<Seq<Seq<Seq<char>>>>, m: int)
    requires
        0 <= m <= groups.len() == 9,
        forall|k: int| 0 <= k < 9 ==> has_name_at(#[trigger] groups[k], k),
    ensures
        events::in_order(advertisement_names(), flat(groups, m)),
        forall|i: int| 0 <= i < flat(groups, m).len() ==> is_named_below(#[trigger] flat(groups, m)[i], m),
    decreases m,
{
    let names = advertisement_names();
    lemma_names_differ();
    if m > 0 {
        lemma_flat_names(groups, m - 1);
        let front = flat(groups, m - 1);
        let last = groups[m - 1];
        let all = flat(groups, m);
        assert(has_name_at(last, m - 1));
        assert forall|i: int| 0 <= i < all.len() implies is_named_below(#[trigger] all[i], m) by {
            if i < front.len() {
                assert(all[i] == front[i]);
                assert(is_named_below(front[i], m - 1));
                let n = choose|n: int|
                    0 <= n < m - 1 && #[trigger] names[n] == front[i][0];
                assert(names[n] == all[i][0]);
            } else {
                assert(all[i] == last[i - front.len()]);
                assert(names[m - 1] == all[i][0]);
            }
        }
        assert forall|i: int, j: int| 0 <= i < j < all.len() implies events::comes_first(
            names,
            #[trigger] all[i],
            #[trigger] all[j],
        ) by {
            if j < front.len() {
                assert(all[i] == front[i] && all[j] == front[j]);
            } else {
                assert(all[j] == last[j - front.len()]);
                assert(is_named_below(all[i], m));
                let x = choose|n: int| 0 <= n < m && #[trigger] names[n] == all[i][0];
                assert forall|n: int, k: int|
                    0 <= n < names.len() && 0 <= k < names.len() && #[trigger] names[n] == all[i][0]
                        && #[trigger] names[k] == all[j][0] implies n <= k by {
                    assert(names[m - 1] == all[j][0]);
                    assert(n == x && k == m - 1);
                }
            }
        }
    }
}

/// The content of an advertisement says in JSON what the worker is called and what it does, how many
/// jobs it takes at once, and that none is waiting.
pub proof fn lemma_advertisement_content(
    e: Event,
    secret_key: Seq<char>,
    config: Config,
    container_name: Seq<char>,
)
    requires
        advertises(e, secret_key, config, container_name),
    ensures
        search::contains_text(
            e.content@,
            events::member_text(
                "name"@,
                json::json_string(config.worker_name@ + " "@ + container_name),
            ),
        ),
        search::contains_text(
            e.content@,
            events::member_text("description"@, json::json_string(config.worker_description@)),
        ),
        search::contains_text(
            e.content@,
            events::member_text(
                "max_concurrent_jobs"@,
                number::decimal(config.worker_max_concurrent_jobs as nat),
            ),
        ),
        search::contains_text(
            e.content@,
            events::member_text("current_queue_depth"@, number::decimal(0)),
        ),
{
    let m = loom::advertisement_members(
        loom::display_name(config.worker_name@, container_name),
        config.worker_description@,
        config.worker_max_concurrent_jobs as nat,
        0,
    );
    events::lemma_members_are_written(m, 0);
    events::lemma_members_are_written(m, 1);
    events::lemma_members_are_written(m, 2);
    events::lemma_members_are_written(m, 3);
}

} // verus!
