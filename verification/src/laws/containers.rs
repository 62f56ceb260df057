//! Laws on containers: their names, listings, networks and services.

use vstd::prelude::*;

use crate::container;
use crate::laws::texts;
use crate::number;
use crate::search;
use crate::spawn;
use crate::text;
use crate::text::CharClass;

verus! {

/// Whether every character is a hexadecimal digit.
pub open spec fn is_hex(s: Seq<char>) -> bool {
    forall|i: int|
        0 <= i < s.len() ==> '0' <= #[trigger] s[i] <= '9' || 'a' <= s[i] <= 'f' || 'A' <= s[i]
            <= 'F'
}

/// Whether every character is a decimal digit.
pub open spec fn is_digits(s: Seq<char>) -> bool {
    forall|i: int| 0 <= i < s.len() ==> '0' <= #[trigger] s[i] <= '9'
}

/// The names of the pool: five hexadecimal digits, `-r` and at least one decimal digit, all of them and
/// no others.
pub proof fn lemma_pool_names(id: Seq<char>, slot: Seq<char>, name: Seq<char>)
    ensures
        id.len() == 5 && is_hex(id) && slot.len() > 0 && is_digits(slot) ==> container::is_pool_name(
            id + seq!['-', 'r'] + slot,
        ),
        container::is_pool_name(name) ==> name.len() > 7 && is_hex(name.take(5)) && name[5] == '-'
            && name[6] == 'r' && is_digits(name.skip(7)),
{
    reveal_strlit("-r");
    let mark = "-r"@;
    assert(mark =~= seq!['-', 'r']);
    if id.len() == 5 && is_hex(id) && slot.len() > 0 && is_digits(slot) {
        let n = id + seq!['-', 'r'] + slot;
        assert(n.subrange(5, 7) =~= mark);
        assert(search::occurs_at(n, mark, 5));
        assert forall|j: int| 0 <= j < 5 implies !search::occurs_at(n, mark, j) by {
            if search::occurs_at(n, mark, j) {
                assert(n.subrange(j, j + 2)[0] == '-');
                assert(n[j] == id[j]);
            }
        }
        assert(search::first_at(n, mark, 5));
        search::lemma_first_at_is_index(n, mark, 5);
        assert(n.take(5) =~= id);
        assert(n.skip(7) =~= slot);
    }
    if container::is_pool_name(name) {
        search::lemma_index_of_text(name, mark);
        assert(name.subrange(5, 7) == mark);
        assert(name[5] == name.subrange(5, 7)[0] && name[6] == name.subrange(5, 7)[1]);
        assert forall|i: int| 0 <= i < 5 implies '0' <= #[trigger] name.take(5)[i] <= '9' || 'a'
            <= name.take(5)[i] <= 'f' || 'A' <= name.take(5)[i] <= 'F' by {
            assert(text::is_hex_digit(name.take(5)[i]));
        }
        assert forall|i: int| 0 <= i < name.skip(7).len() implies '0' <= #[trigger] name.skip(7)[i]
            <= '9' by {
            assert(text::is_digit(name.skip(7)[i]));
        }
    }
}

/// The names of the former kind: `j` and at least one decimal digit, all of them and no others.
pub proof fn lemma_job_names(n: Seq<char>, name: Seq<char>)
    ensures
        n.len() > 0 && is_digits(n) ==> container::is_job_name(seq!['j'] + n),
        container::is_job_name(name) ==> name.len() > 1 && name[0] == 'j' && is_digits(
            name.drop_first(),
        ),
{
    reveal_strlit("-r");
    if n.len() > 0 && is_digits(n) {
        let s = seq!['j'] + n;
        assert(s.drop_first() =~= n);
        assert(!search::contains_text(s, "-r"@)) by {
            if search::contains_text(s, "-r"@) {
                let i = choose|i: int| search::occurs_at(s, "-r"@, i);
                assert(s.subrange(i, i + 2)[0] == '-');
                assert(s[i] == '-');
                if i > 0 {
                    assert(n[i - 1] == '-');
                }
            }
        }
        assert(search::all_digits(n));
    }
    if container::is_job_name(name) {
        assert forall|i: int| 0 <= i < name.drop_first().len() implies '0'
            <= #[trigger] name.drop_first()[i] <= '9' by {
            assert(text::is_digit(name.drop_first()[i]));
        }
    }
}

/// A listing is read line by line: a line counts, without the white space around it, where it names a
/// container of the pool (or, for the longer list, one of the former kind), and then come the others.
pub proof fn lemma_listings_are_read(line: Seq<char>, rest: Seq<char>)
    requires
        !line.contains('\n'),
        line.len() > 0 ==> line.last() != '\r',
    ensures
        ({
            let name = text::trim_spec(line);
            let whole = line.push('\n') + rest;
            &&& container::is_pool_name(name) ==> container::pool_containers(whole) == seq![name]
                + container::pool_containers(rest)
            &&& !container::is_pool_name(name) ==> container::pool_containers(whole)
                == container::pool_containers(rest)
            &&& container::is_pool_name(name) || container::is_job_name(name)
                ==> container::all_containers(whole) == seq![name] + container::all_containers(rest)
            &&& !container::is_pool_name(name) && !container::is_job_name(name)
                ==> container::all_containers(whole) == container::all_containers(rest)
        }),
{
    let name = text::trim_spec(line);
    let whole = line.push('\n') + rest;
    let tr = |l: Seq<char>| text::trim_spec(l);
    let pool = |n: Seq<char>| container::is_pool_name(n);
    let all = |n: Seq<char>| container::is_pool_name(n) || container::is_job_name(n);
    texts::lemma_lines_of(line, rest);
    let others = container::listed(rest);
    assert(container::listed(whole) =~= seq![name] + others) by {
        assert((seq![line] + text::lines(rest)).map_values(tr) =~= seq![name] + text::lines(
            rest,
        ).map_values(tr));
    }
    Seq::filter_distributes_over_add(seq![name], others, pool);
    Seq::filter_distributes_over_add(seq![name], others, all);
    texts::lemma_filter_one(name, pool);
    texts::lemma_filter_one(name, all);
    if !container::is_pool_name(name) {
        assert(seq![name].filter(pool) + others.filter(pool) =~= others.filter(pool));
    }
    if !container::is_pool_name(name) && !container::is_job_name(name) {
        assert(seq![name].filter(all) + others.filter(all) =~= others.filter(all));
    }
}

/// The third octet of an address is the number between its second and its third full stop, or its end.
pub proof fn lemma_third_octets(
    head: Seq<char>,
    a: nat,
    b: nat,
    c: nat,
    d: nat,
    tail: Seq<char>,
)
    requires
        texts::is_white(head),
        texts::is_white(tail),
    ensures
        ({
            let ip = number::decimal(a).push('.') + number::decimal(b).push('.') + number::decimal(
                c,
            ).push('.') + number::decimal(d);
            &&& c <= 255 ==> container::third_octet(head + ip + tail) == Some(c)
            &&& c > 255 ==> container::third_octet(head + ip + tail) is None
        }),
{
    let (p, q, r, s) = (
        number::decimal(a),
        number::decimal(b),
        number::decimal(c),
        number::decimal(d),
    );
    let k = CharClass::Dot;
    lemma_decimal(a);
    lemma_decimal(b);
    lemma_decimal(c);
    lemma_decimal(d);
    let ip = p.push('.') + q.push('.') + r.push('.') + s;
    assert(ip[0] == p[0]);
    assert(ip.last() == s[s.len() - 1]);
    texts::lemma_trim_takes_white_space_off(head, ip, tail);
    assert(ip =~= p.push('.') + (q.push('.') + (r.push('.') + s)));
    texts::lemma_split_of(p, '.', q.push('.') + (r.push('.') + s), k);
    texts::lemma_split_of(q, '.', r.push('.') + s, k);
    texts::lemma_split_of(r, '.', s, k);
    texts::lemma_split_single(s, k);
    let parts = text::split(ip, k);
    assert(parts[2] == r);
    texts::lemma_decimals_read_back(c, 255);
    number::lemma_decimal_reads_back(c);
}

/// What has no three parts between full stops is no address.
pub proof fn lemma_short_texts_are_no_addresses(ip: Seq<char>, a: Seq<char>, b: Seq<char>)
    requires
        !a.contains('.'),
        !b.contains('.'),
        text::trim_spec(ip) == a || text::trim_spec(ip) == a.push('.') + b,
    ensures
        container::third_octet(ip) is None,
{
    let k = CharClass::Dot;
    lemma_no_dot(a);
    lemma_no_dot(b);
    texts::lemma_split_single(a, k);
    texts::lemma_split_of(a, '.', b, k);
    texts::lemma_split_single(b, k);
}

proof fn lemma_no_dot(s: Seq<char>)
    requires
        !s.contains('.'),
    ensures
        texts::none_of(s, CharClass::Dot),
{
    assert forall|i: int| 0 <= i < s.len() implies !CharClass::Dot.holds(#[trigger] s[i]) by {
        if s[i] == '.' {
            assert(s.contains('.'));
        }
    }
}

proof fn lemma_decimal(n: nat)
    ensures
        number::decimal(n).len() > 0,
        texts::none_of(number::decimal(n), CharClass::Dot),
        !text::is_whitespace(number::decimal(n)[0]),
        !text::is_whitespace(number::decimal(n).last()),
{
    texts::lemma_decimals_read_back(n, n);
    let d = number::decimal(n);
    assert('0' <= d[0] <= '9');
    assert('0' <= d[d.len() - 1] <= '9');
    assert forall|i: int| 0 <= i < d.len() implies !CharClass::Dot.holds(#[trigger] d[i]) by {
        assert('0' <= d[i] <= '9');
    }
}

/// Whether no address uses the network.
pub open spec fn is_unused(ips: Seq<Seq<char>>, octet: nat) -> bool {
    forall|i: int| 0 <= i < ips.len() ==> container::third_octet(#[trigger] ips[i]) != Some(octet)
}

/// The network of a new container lies from 100 to 199. As long as one of these networks is not that of
/// a known address, the new one is the smallest of them, and otherwise it is the first.
pub proof fn lemma_networks_are_free(ips: Seq<Seq<char>>, octet: nat)
    requires
        container::is_free_subnet(container::used_octets(ips), octet),
    ensures
        100 <= octet <= 199,
        forall|free: nat|
            100 <= free <= 199 && #[trigger] is_unused(ips, free) ==> octet <= free && is_unused(
                ips,
                octet,
            ),
        is_unused(ips, octet) || octet == 100,
{
    let used = container::used_octets(ips);
    if !used.contains(Some(octet)) {
        assert forall|i: int| 0 <= i < ips.len() implies container::third_octet(#[trigger] ips[i])
            != Some(octet) by {
            assert(used[i] == container::third_octet(ips[i]));
        }
    }
    assert forall|free: nat| 100 <= free <= 199 && #[trigger] is_unused(ips, free) implies octet
        <= free && is_unused(ips, octet) by {
        assert(!used.contains(Some(free))) by {
            if used.contains(Some(free)) {
                let i = choose|i: int| 0 <= i < used.len() && used[i] == Some(free);
                assert(container::third_octet(ips[i]) == Some(free));
            }
        }
        assert(!used.contains(Some(octet)));
        assert forall|i: int| 0 <= i < ips.len() implies container::third_octet(#[trigger] ips[i])
            != Some(octet) by {
            assert(used[i] == container::third_octet(ips[i]));
        }
    }
}

/// Whether a service has completed: always where its container cannot be reached or it has failed, never
/// while it is active or becoming so, and where it is inactive exactly where its last run ended, with
/// success or with an exit code.
pub proof fn lemma_completed_services(status: Seq<char>, result: Option<Seq<char>>)
    ensures
        container::is_completed(false, status, result),
        container::is_completed(true, "failed"@, result),
        !container::is_completed(true, "active"@, result),
        !container::is_completed(true, "activating"@, result),
        !container::is_completed(true, "reloading"@, result),
        !container::is_completed(true, "unknown"@, result),
        status != "failed"@ && status != "inactive"@ ==> !container::is_completed(
            true,
            status,
            result,
        ),
        container::is_completed(true, "inactive"@, result) <==> (result matches Some(r) && (exists|
            a: Seq<char>,
            b: Seq<char>,
        |
            r == #[trigger] (a + "success"@ + b) || r == a + "exit-code"@ + b)),
{
    reveal_strlit("failed");
    reveal_strlit("active");
    reveal_strlit("activating");
    reveal_strlit("reloading");
    reveal_strlit("inactive");
    reveal_strlit("unknown");
    assert("failed"@[0] == 'f' && "active"@[0] == 'a' && "activating"@[0] == 'a');
    assert("reloading"@[0] == 'r' && "inactive"@[0] == 'i' && "unknown"@[0] == 'u');
    if let Some(r) = result {
        texts::lemma_texts_are_found(r, "success"@);
        texts::lemma_texts_are_found(r, "exit-code"@);
        if search::contains_text(r, "exit-code"@) {
            let (a, b) = choose|a: Seq<char>, b: Seq<char>| r == #[trigger] (a + "exit-code"@ + b);
            let x = a + "success"@ + b;
            assert(r == a + "exit-code"@ + b);
        }
        assert forall|a: Seq<char>, b: Seq<char>|
            r == #[trigger] (a + "success"@ + b) || r == a + "exit-code"@ + b implies
            container::is_completed(true, "inactive"@, result) by {
            if r == a + "exit-code"@ + b {
                texts::lemma_part_is_found(a, "exit-code"@, b);
            }
        }
    }
}

/// A container is created under its name, of the template, and in one network: its own address and that
/// of the host differ in their last octet only.
pub proof fn lemma_containers_are_created(name: Seq<char>, template: Seq<char>, subnet: nat)
    requires
        subnet <= 255,
    ensures
        ({
            let args = spawn::create_args(name, template, subnet);
            let none: Seq<char> = seq![];
            &&& args.len() == 8
            &&& args[0] == "create"@ && args[1] == name
            &&& args[2] == "--config-file"@ && args[3] == template
            &&& args[4] == "--local-address"@ && args[6] == "--host-address"@
            &&& container::third_octet(args[5]) == Some(subnet)
            &&& container::third_octet(args[7]) == Some(subnet)
            &&& ".11"@.is_suffix_of(args[5])
            &&& ".10"@.is_suffix_of(args[7])
            &&& args[5].drop_last() == args[7].drop_last()
        }),
{
    reveal_strlit("192.168.");
    reveal_strlit(".11");
    reveal_strlit(".10");
    let none: Seq<char> = seq![];
    let args = spawn::create_args(name, template, subnet);
    let n = number::decimal(subnet);
    lemma_small_decimals();
    let net = number::decimal(192).push('.') + number::decimal(168).push('.') + n.push('.');
    assert("192.168."@ =~= number::decimal(192).push('.') + number::decimal(168).push('.'));
    lemma_third_octets(none, 192, 168, subnet, 11, none);
    lemma_third_octets(none, 192, 168, subnet, 10, none);
    assert(args[5] =~= none + (net + number::decimal(11)) + none);
    assert(args[7] =~= none + (net + number::decimal(10)) + none);
    assert(".11"@ =~= args[5].skip(args[5].len() - 3));
    assert(".10"@ =~= args[7].skip(args[7].len() - 3));
    assert(args[5].drop_last() =~= args[7].drop_last());
}

proof fn lemma_small_decimals()
    ensures
        number::decimal(192) == seq!['1', '9', '2'],
        number::decimal(168) == seq!['1', '6', '8'],
        number::decimal(11) == seq!['1', '1'],
        number::decimal(10) == seq!['1', '0'],
{
    reveal_with_fuel(number::decimal, 4);
    assert(number::decimal(1) =~= seq!['1']);
    assert(number::decimal(19) =~= seq!['1', '9']);
    assert(number::decimal(16) =~= seq!['1', '6']);
    assert(number::decimal(192) =~= seq!['1', '9', '2']);
    assert(number::decimal(168) =~= seq!['1', '6', '8']);
    assert(number::decimal(11) =~= seq!['1', '1']);
    assert(number::decimal(10) =~= seq!['1', '0']);
}

/// The name of a container begins with the first hexadecimal digits of the hash of the host, five where
/// it has as many, then `-r`, and then the slot, which can be read off it.
pub proof fn lemma_container_names(hash: u64, slot: nat)
    ensures
        ({
            let name = container::container_name(hash, slot);
            let hex = number::hexadecimal(hash as nat);
            let n = if hex.len() < 5 {
                hex.len() as int
            } else {
                5
            };
            &&& name.len() > n + 2
            &&& name.take(n) == hex.take(n)
            &&& name[n] == '-' && name[n + 1] == 'r'
            &&& number::parse_up_to(name.skip(n + 2), slot) == Some(slot)
        }),
{
    reveal_strlit("-r");
    let name = container::container_name(hash, slot);
    let hex = number::hexadecimal(hash as nat);
    let n = if hex.len() < 5 {
        hex.len() as int
    } else {
        5
    };
    number::lemma_decimal_reads_back(slot);
    number::lemma_decimal_digits(slot);
    assert(name.take(n) =~= hex.take(n));
    assert(name.skip(n + 2) =~= number::decimal(slot));
}

} // verus!
