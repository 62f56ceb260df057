//! What the Cashu wallet prints, and what is read from it.

use vstd::prelude::*;

use crate::config::WorkerPrice;
use crate::number;
use crate::number::{parse_u64, parse_usize};
use crate::search;
use crate::search::{find_text, has_text, is_less, list_contains, starts_with, to_ascii_lowercase};
use crate::text;
use crate::text::{
    find_class, non_empty, same_text, split_at, split_lines, split_whitespace, trim,
    trim_end_matches, trim_matches, CharClass,
};

verus! {

/// The mint and unit of a token.
#[derive(Debug, PartialEq, Eq)]
pub struct TokenMetadata {
    pub mint_url: String,
    pub unit: String,
}

impl Clone for TokenMetadata {
    fn clone(&self) -> (r: Self)
        ensures
            r == *self,
    {
        TokenMetadata { mint_url: self.mint_url.clone(), unit: self.unit.clone() }
    }
}

/// One line of the wallet's balance.
#[derive(Debug, PartialEq, Eq)]
pub struct BalanceEntry {
    pub mint_url: String,
    pub amount: u64,
    pub unit: String,
}

impl Clone for BalanceEntry {
    fn clone(&self) -> (r: Self)
        ensures
            r == *self,
    {
        BalanceEntry { mint_url: self.mint_url.clone(), amount: self.amount, unit: self.unit.clone() }
    }
}

/// A balance line as characters and a number.
pub struct BalanceView {
    pub mint_url: Seq<char>,
    pub amount: nat,
    pub unit: Seq<char>,
}

impl View for BalanceEntry {
    type V = BalanceView;

    open spec fn view(&self) -> BalanceView {
        BalanceView { mint_url: self.mint_url@, amount: self.amount as nat, unit: self.unit@ }
    }
}

// ---------------------------------------------------------------------------------------------
// Amounts
// ---------------------------------------------------------------------------------------------

/// The first run of decimal digits in `s`, where it is a number of 64 bits.
pub open spec fn first_number(s: Seq<char>) -> Option<nat> {
    let runs = text::split(s, CharClass::NonDigit).filter(|w: Seq<char>| w.len() > 0);
    if runs.len() > 0 {
        number::parse_up_to(runs[0], u64::MAX as nat)
    } else {
        None
    }
}

/// Reads the first run of decimal digits.
pub fn first_u64(value: &str) -> (r: Option<u64>)
    ensures
        r is Some <==> first_number(value@) is Some,
        r matches Some(n) ==> first_number(value@) == Some(n as nat),
{
    let pieces = split_at(value, CharClass::NonDigit);
    let runs = non_empty(&pieces);
    let ghost views = text::split(value@, CharClass::NonDigit).filter(|w: Seq<char>| w.len() > 0);
    assert(runs.deep_view() == views);
    if runs.len() == 0 {
        return None;
    }
    assert(runs.deep_view()[0] == runs@[0]@);
    parse_u64(runs[0].as_str())
}

/// The amount on a line that speaks of something received.
pub open spec fn line_amount(line: Seq<char>) -> Option<nat> {
    if search::contains_text(search::lowercase(line), "received"@) {
        first_number(line)
    } else {
        None
    }
}

/// The amount on the first line that has one.
pub open spec fn first_amount(lines: Seq<Seq<char>>) -> Option<nat>
    decreases lines.len(),
{
    if lines.len() == 0 {
        None
    } else {
        match line_amount(lines[0]) {
            Some(n) => Some(n),
            None => first_amount(lines.drop_first()),
        }
    }
}

/// The amount that the wallet says it received, where that is not zero.
pub open spec fn received_amount(output: Seq<char>) -> Option<nat> {
    match first_amount(text::lines(output)) {
        Some(n) => if n > 0 {
            Some(n)
        } else {
            None
        },
        None => None,
    }
}

/// Reads the amount that the wallet says it received.
pub fn parse_received_amount(output: &str) -> (r: Option<u64>)
    ensures
        r is Some <==> received_amount(output@) is Some,
        r matches Some(n) ==> received_amount(output@) == Some(n as nat),
{
    let lines = split_lines(output);
    let ghost views = text::lines(output@);
    assert(views.skip(0) =~= views);
    let mut i: usize = 0;
    while i < lines.len()
        invariant
            i <= lines@.len(),
            lines.deep_view() == views,
            views == text::lines(output@),
            first_amount(views) == first_amount(views.skip(i as int)),
        decreases lines.len() - i,
    {
        let line = &lines[i];
        assert(views.skip(i as int)[0] == line@);
        assert(views.skip(i as int).drop_first() =~= views.skip(i + 1));
        let lower = to_ascii_lowercase(line.as_str());
        if has_text(lower.as_str(), "received") {
            match first_u64(line.as_str()) {
                Some(n) => {
                    return if n > 0 {
                        Some(n)
                    } else {
                        None
                    };
                },
                None => {},
            }
        }
        i = i + 1;
    }
    None
}

// ---------------------------------------------------------------------------------------------
// Balances
// ---------------------------------------------------------------------------------------------

/// The balance that a line states: an index, a colon, and then a mint, an amount and a unit.
pub open spec fn balance_line(line: Seq<char>) -> Option<BalanceView> {
    let t = text::trim_spec(line);
    let p = text::position(t, CharClass::Colon) as int;
    let fields = text::words(t.skip(p + 1));
    if p < t.len() && number::parse_up_to(t.take(p), usize::MAX as nat) is Some && fields.len() >= 3
        && number::parse_up_to(fields[1], u64::MAX as nat) is Some {
        Some(
            BalanceView {
                mint_url: fields[0],
                amount: number::parse_up_to(fields[1], u64::MAX as nat)->0,
                unit: fields[2],
            },
        )
    } else {
        None
    }
}

/// The balances that an output states, in order.
pub open spec fn balances(output: Seq<char>) -> Seq<BalanceView> {
    text::lines(output).filter_map(|line: Seq<char>| balance_line(line))
}

/// Reads one line of a balance.
fn parse_balance_line(line: &str) -> (r: Option<BalanceEntry>)
    ensures
        r is Some <==> balance_line(line@) is Some,
        r matches Some(e) ==> balance_line(line@) == Some(e@),
{
    let t = trim(line);
    let p: usize = match find_class(t.as_str(), CharClass::Colon) {
        Some(p) => p,
        None => {
            return None;
        },
    };
    let index = search::subtext(t.as_str(), 0, p);
    assert(index@ =~= t@.take(p as int));
    if parse_usize(index.as_str()).is_none() {
        return None;
    }
    let rest = search::text_after(t.as_str(), p + 1);
    let fields = split_whitespace(rest.as_str());
    let ghost views = text::words(rest@);
    assert(fields.deep_view() == views);
    if fields.len() < 3 {
        return None;
    }
    assert(views[0] == fields@[0]@ && views[1] == fields@[1]@ && views[2] == fields@[2]@);
    match parse_u64(fields[1].as_str()) {
        Some(amount) => Some(
            BalanceEntry { mint_url: fields[0].clone(), amount, unit: fields[2].clone() },
        ),
        None => None,
    }
}

/// Reads the balances that the wallet prints, one for each line that states one.
pub fn parse_balance_entries(output: &str) -> (r: Vec<BalanceEntry>)
    ensures
        r@.map_values(|e: BalanceEntry| e@) == balances(output@),
{
    let lines = split_lines(output);
    let ghost views = text::lines(output@);
    let ghost read = |line: Seq<char>| balance_line(line);
    let ghost show = |e: BalanceEntry| e@;
    let mut r: Vec<BalanceEntry> = Vec::new();
    let mut i: usize = 0;
    assert(r@.map_values(show) =~= views.take(0).filter_map(read));
    while i < lines.len()
        invariant
            i <= lines@.len(),
            lines.deep_view() == views,
            read == (|line: Seq<char>| balance_line(line)),
            show == (|e: BalanceEntry| e@),
            r@.map_values(show) == views.take(i as int).filter_map(read),
        decreases lines.len() - i,
    {
        let ghost before = r@;
        let ghost next = views.take(i + 1);
        assert(next.drop_last() =~= views.take(i as int));
        assert(next.last() == lines@[i as int]@);
        match parse_balance_line(lines[i].as_str()) {
            Some(e) => {
                r.push(e);
                assert(r@.map_values(show) =~= before.map_values(show) + seq![e@]);
            },
            None => {},
        }
        i = i + 1;
    }
    assert(views.take(i as int) =~= views);
    r
}

// ---------------------------------------------------------------------------------------------
// Tokens
// ---------------------------------------------------------------------------------------------

/// A printed word without the quotes and separators around it.
pub open spec fn unframed(word: Seq<char>) -> Seq<char> {
    text::trim_class(word, CharClass::TokenFrame)
}

/// Whether `t` is written like a Cashu token.
pub open spec fn is_cashu_token(t: Seq<char>) -> bool {
    "cashuA"@.is_prefix_of(t) || "cashuB"@.is_prefix_of(t)
}

/// The first token among the words.
pub open spec fn first_token(words: Seq<Seq<char>>) -> Option<Seq<char>>
    decreases words.len(),
{
    if words.len() == 0 {
        None
    } else if is_cashu_token(unframed(words[0])) {
        Some(unframed(words[0]))
    } else {
        first_token(words.drop_first())
    }
}

/// Finds the first Cashu token that the wallet prints.
pub fn parse_cashu_token(output: &str) -> (r: Option<String>)
    ensures
        r is Some <==> first_token(text::words(output@)) is Some,
        r matches Some(t) ==> first_token(text::words(output@)) == Some(t@),
{
    let parts = split_whitespace(output);
    let ghost views = text::words(output@);
    assert(views.skip(0) =~= views);
    let mut i: usize = 0;
    while i < parts.len()
        invariant
            i <= parts@.len(),
            parts.deep_view() == views,
            views == text::words(output@),
            first_token(views) == first_token(views.skip(i as int)),
        decreases parts.len() - i,
    {
        assert(views.skip(i as int)[0] == parts@[i as int]@);
        assert(views.skip(i as int).drop_first() =~= views.skip(i + 1));
        let token = trim_matches(parts[i].as_str(), CharClass::TokenFrame);
        if starts_with(token.as_str(), "cashuA") || starts_with(token.as_str(), "cashuB") {
            return Some(token);
        }
        i = i + 1;
    }
    None
}

// ---------------------------------------------------------------------------------------------
// Units
// ---------------------------------------------------------------------------------------------

/// Whether `unit` is the unit of a configured price.
pub open spec fn is_unit_of(prices: Seq<WorkerPrice>, unit: Seq<char>) -> bool {
    exists|i: int| 0 <= i < prices.len() && (#[trigger] prices[i]).unit@ == unit
}

/// Whether the texts are in strictly increasing order.
pub open spec fn strictly_sorted(s: Seq<Seq<char>>) -> bool {
    forall|i: int, j: int| 0 <= i < j < s.len() ==> search::text_less(#[trigger] s[i], #[trigger] s[j])
}

/// Inserts a text into a sorted list that holds each text once.
fn insert_sorted(list: &mut Vec<String>, entry: &String)
    requires
        strictly_sorted(old(list).deep_view()),
    ensures
        strictly_sorted(final(list).deep_view()),
        forall|x: Seq<char>|
            final(list).deep_view().contains(x) <==> old(list).deep_view().contains(x) || x
                == entry@,
{
    let ghost before = list.deep_view();
    let mut i: usize = 0;
    while i < list.len() && is_less(list[i].as_str(), entry.as_str())
        invariant
            i <= list@.len(),
            list.deep_view() == before,
            forall|j: int| 0 <= j < i ==> search::text_less(#[trigger] before[j], entry@),
        decreases list.len() - i,
    {
        i = i + 1;
    }
    if i < list.len() && same_text(list[i].as_str(), entry.as_str()) {
        assert(before[i as int] == entry@);
        return;
    }
    proof {
        if i < before.len() {
            search::lemma_text_less_total(before[i as int], entry@);
        }
    }
    list.insert(i, entry.clone());
    let ghost after = list.deep_view();
    assert(after =~= before.insert(i as int, entry@));
    assert forall|a: int, b: int| 0 <= a < b < after.len() implies search::text_less(
        #[trigger] after[a],
        #[trigger] after[b],
    ) by {
        if b == i {
        } else if a == i {
            assert(search::text_less(entry@, before[i as int]));
            if b - 1 > i {
                search::lemma_text_less_transitive(entry@, before[i as int], before[b - 1]);
            }
        } else {
            let x = if a < i {
                a
            } else {
                a - 1
            };
            let y = if b < i {
                b
            } else {
                b - 1
            };
            assert(search::text_less(before[x], before[y]));
        }
    }
    assert forall|x: Seq<char>| after.contains(x) <==> before.contains(x) || x == entry@ by {
        if before.contains(x) {
            let j = choose|j: int| 0 <= j < before.len() && before[j] == x;
            assert(after[if j < i {
                j
            } else {
                j + 1
            }] == x);
        }
        assert(after[i as int] == entry@);
        if after.contains(x) && x != entry@ {
            let j = choose|j: int| 0 <= j < after.len() && after[j] == x;
            assert(before[if j < i {
                j
            } else {
                j - 1
            }] == x);
        }
    }
}

/// The units of the configured prices, each once, in order.
pub fn unique_units(prices: &[WorkerPrice]) -> (r: Vec<String>)
    ensures
        strictly_sorted(r.deep_view()),
        forall|u: Seq<char>| r.deep_view().contains(u) <==> is_unit_of(prices@, u),
{
    let mut r: Vec<String> = Vec::new();
    let mut i: usize = 0;
    while i < prices.len()
        invariant
            i <= prices@.len(),
            strictly_sorted(r.deep_view()),
            forall|u: Seq<char>|
                r.deep_view().contains(u) <==> is_unit_of(prices@.take(i as int), u),
        decreases prices.len() - i,
    {
        let ghost before = prices@.take(i as int);
        let ghost after = prices@.take(i + 1);
        insert_sorted(&mut r, &prices[i].unit);
        assert forall|u: Seq<char>| is_unit_of(after, u) <==> is_unit_of(before, u) || u
            == prices@[i as int].unit@ by {
            if is_unit_of(before, u) {
                let j = choose|j: int| 0 <= j < before.len() && (#[trigger] before[j]).unit@ == u;
                assert(after[j].unit@ == u);
            }
            assert(after[i as int] == prices@[i as int]);
            if is_unit_of(after, u) && u != prices@[i as int].unit@ {
                let j = choose|j: int| 0 <= j < after.len() && (#[trigger] after[j]).unit@ == u;
                assert(before[j].unit@ == u);
            }
        }
        i = i + 1;
    }
    assert(prices@.take(i as int) =~= prices@);
    r
}

/// Whether `output` mentions `unit`: in quotes of either kind, or as a word.
pub open spec fn mentions_unit(output: Seq<char>, unit: Seq<char>) -> bool {
    ||| search::contains_text(output, seq!['"'] + unit + seq!['"'])
    ||| search::contains_text(output, seq!['\''] + unit + seq!['\''])
    ||| text::split(output, CharClass::NonWord).contains(unit)
}

/// Tests whether `output` mentions `unit`.
pub fn output_mentions_unit(output: &str, unit: &str) -> (r: bool)
    ensures
        r == mentions_unit(output@, unit@),
{
    let double_quoted = quoted(unit, '"');
    let single_quoted = quoted(unit, '\'');
    if has_text(output, double_quoted.as_str()) || has_text(output, single_quoted.as_str()) {
        return true;
    }
    let words = split_at(output, CharClass::NonWord);
    list_contains(&words, unit)
}

fn quoted(s: &str, quote: char) -> (r: String)
    ensures
        r@ == seq![quote] + s@ + seq![quote],
{
    let mut r: String = String::new();
    r.push(quote);
    r.append(s);
    r.push(quote);
    assert(r@ =~= seq![quote] + s@ + seq![quote]);
    r
}

// ---------------------------------------------------------------------------------------------
// Mints
// ---------------------------------------------------------------------------------------------

/// The URLs in `s` that begin with `prefix`, in order. A URL ends before white space, a quote, a
/// comma or a bracket, and full stops and semicolons at its end do not belong to it.
pub open spec fn urls_with(s: Seq<char>, prefix: Seq<char>) -> Seq<Seq<char>>
    decreases s.len(),
{
    let start = search::index_of_text(s, prefix);
    let candidate = s.skip(start);
    let end = text::position(candidate, CharClass::UrlEnd) as int;
    if search::contains_text(s, prefix) && 0 <= start && 0 < end && start + end <= s.len() {
        seq![text::trim_end(candidate.take(end), CharClass::UrlTail)] + urls_with(
            candidate.skip(end),
            prefix,
        )
    } else {
        seq![]
    }
}

/// The texts of `s`, each at its first place only.
pub open spec fn without_repeats(s: Seq<Seq<char>>) -> Seq<Seq<char>>
    decreases s.len(),
{
    if s.len() == 0 {
        seq![]
    } else {
        let u = without_repeats(s.drop_last());
        if u.contains(s.last()) {
            u
        } else {
            u.push(s.last())
        }
    }
}

/// The different URLs in `output`, the `https` ones first.
pub open spec fn mint_urls(output: Seq<char>) -> Seq<Seq<char>> {
    without_repeats(urls_with(output, "https://"@) + urls_with(output, "http://"@))
}

/// Removing repeats keeps every text, and keeps it once.
pub proof fn lemma_without_repeats(s: Seq<Seq<char>>)
    ensures
        without_repeats(s).no_duplicates(),
        forall|x: Seq<char>| without_repeats(s).contains(x) <==> s.contains(x),
    decreases s.len(),
{
    if s.len() > 0 {
        let t = s.drop_last();
        lemma_without_repeats(t);
        let u = without_repeats(t);
        assert(s =~= t.push(s.last()));
        assert forall|x: Seq<char>| without_repeats(s).contains(x) <==> s.contains(x) by {
            assert(s.contains(x) <==> t.contains(x) || x == s.last()) by {
                assert(s[s.len() - 1] == s.last());
                if t.contains(x) {
                    let j = choose|j: int| 0 <= j < t.len() && t[j] == x;
                    assert(s[j] == x);
                }
                if s.contains(x) && x != s.last() {
                    let j = choose|j: int| 0 <= j < s.len() && s[j] == x;
                    assert(t[j] == x);
                }
            }
            let w = u.push(s.last());
            assert(w.contains(x) <==> u.contains(x) || x == s.last()) by {
                assert(w[w.len() - 1] == s.last());
                if u.contains(x) {
                    let j = choose|j: int| 0 <= j < u.len() && u[j] == x;
                    assert(w[j] == x);
                }
                if w.contains(x) && x != s.last() {
                    let j = choose|j: int| 0 <= j < w.len() && w[j] == x;
                    assert(u[j] == x);
                }
            }
        }
    }
}

/// Adds the URLs that begin with `prefix` to `urls`, leaving out those that are there already.
fn collect_urls(urls: &mut Vec<String>, output: &str, prefix: &str, Ghost(seen): Ghost<
    Seq<Seq<char>>,
>)
    requires
        old(urls).deep_view() == without_repeats(seen),
        prefix@.len() > 0,
        !CharClass::UrlEnd.holds(prefix@[0]),
    ensures
        final(urls).deep_view() == without_repeats(seen + urls_with(output@, prefix@)),
{
    let ghost mut found: Seq<Seq<char>> = seq![];
    let mut rest: String = output.to_string();
    assert(seen + found =~= seen);
    assert(found + urls_with(rest@, prefix@) =~= urls_with(output@, prefix@));
    loop
        invariant
            prefix@.len() > 0,
            !CharClass::UrlEnd.holds(prefix@[0]),
            urls.deep_view() == without_repeats(seen + found),
            found + urls_with(rest@, prefix@) == urls_with(output@, prefix@),
        decreases rest@.len(),
    {
        let start: usize = match find_text(rest.as_str(), prefix) {
            Some(i) => i,
            None => {
                assert(found + urls_with(rest@, prefix@) =~= found);
                return;
            },
        };
        let candidate = search::text_after(rest.as_str(), start);
        let end: usize = match find_class(candidate.as_str(), CharClass::UrlEnd) {
            Some(i) => i,
            None => candidate.as_str().unicode_len(),
        };
        proof {
            text::lemma_position(candidate@, CharClass::UrlEnd);
            assert(candidate@[0] == rest@.subrange(start as int, start + prefix@.len())[0]);
        }
        let whole = search::subtext(candidate.as_str(), 0, end);
        assert(whole@ =~= candidate@.take(end as int));
        let url = trim_end_matches(whole.as_str(), CharClass::UrlTail);
        let ghost before = urls.deep_view();
        let ghost u = url@;
        if !list_contains(urls, url.as_str()) {
            urls.push(url);
            assert(urls.deep_view() =~= before.push(u));
        }
        proof {
            let next = seen + found.push(u);
            assert(next.drop_last() =~= seen + found);
            assert(next.last() == u);
            assert(found.push(u) + urls_with(candidate@.skip(end as int), prefix@) =~= found + (
            seq![u] + urls_with(candidate@.skip(end as int), prefix@)));
            found = found.push(u);
        }
        rest = search::text_after(candidate.as_str(), end);
    }
}

/// The different URLs in `output`.
pub fn unique_urls(output: &str) -> (r: Vec<String>)
    ensures
        r.deep_view() == mint_urls(output@),
{
    let mut urls: Vec<String> = Vec::new();
    proof {
        reveal_strlit("https://");
        reveal_strlit("http://");
    }
    let ghost none: Seq<Seq<char>> = seq![];
    let ghost secure = urls_with(output@, "https://"@);
    assert(urls.deep_view() =~= none);
    assert(none + secure =~= secure);
    collect_urls(&mut urls, output, "https://", Ghost(none));
    collect_urls(&mut urls, output, "http://", Ghost(secure));
    urls
}

/// Whether `unit` is configured and `output` mentions it.
pub open spec fn is_token_unit(
    output: Seq<char>,
    prices: Seq<WorkerPrice>,
    unit: Seq<char>,
) -> bool {
    is_unit_of(prices, unit) && mentions_unit(output, unit)
}

/// Whether `output` tells the mint and the unit of a token: it holds one URL, and mentions one of
/// the configured units.
pub open spec fn tells_metadata(
    output: Seq<char>,
    prices: Seq<WorkerPrice>,
    mint_url: Seq<char>,
    unit: Seq<char>,
) -> bool {
    &&& mint_urls(output) == seq![mint_url]
    &&& is_token_unit(output, prices, unit)
    &&& forall|u: Seq<char>| #[trigger] is_token_unit(output, prices, u) ==> u == unit
}

/// Whether `output` tells the mint and the unit of a token.
pub open spec fn has_metadata(output: Seq<char>, prices: Seq<WorkerPrice>) -> bool {
    exists|m: Seq<char>, u: Seq<char>| tells_metadata(output, prices, m, u)
}

/// Reads the mint and unit of a token.
pub fn parse_token_metadata(output: &str, prices: &[WorkerPrice]) -> (r: Option<TokenMetadata>)
    ensures
        r is Some <==> has_metadata(output@, prices@),
        r matches Some(t) ==> tells_metadata(output@, prices@, t.mint_url@, t.unit@),
{
    let urls = unique_urls(output);
    if urls.len() != 1 {
        assert(urls.deep_view().len() != 1);
        return None;
    }
    let units = unique_units(prices);
    let ghost all = units.deep_view();
    let mut named: Vec<String> = Vec::new();
    let mut i: usize = 0;
    while i < units.len()
        invariant
            i <= units@.len(),
            units.deep_view() == all,
            strictly_sorted(all),
            forall|u: Seq<char>| all.contains(u) <==> is_unit_of(prices@, u),
            forall|j: int|
                0 <= j < named@.len() ==> is_token_unit(
                    output@,
                    prices@,
                    (#[trigger] named@[j])@,
                ),
            forall|j: int|
                0 <= j < named@.len() ==> exists|k: int|
                    0 <= k < i && all[k] == (#[trigger] named@[j])@,
            forall|j: int, k: int|
                0 <= j < k < named@.len() ==> (#[trigger] named@[j])@ != (#[trigger] named@[k])@,
            forall|k: int|
                0 <= k < i && mentions_unit(output@, #[trigger] all[k])
                    ==> named.deep_view().contains(all[k]),
        decreases units.len() - i,
    {
        let ghost before = named.deep_view();
        assert(all[i as int] == units@[i as int]@);
        assert(all.contains(all[i as int]));
        if output_mentions_unit(output, units[i].as_str()) {
            let ghost count = named@.len();
            named.push(units[i].clone());
            assert(named.deep_view()[count as int] == all[i as int]);
            assert forall|x: Seq<char>| before.contains(x) implies named.deep_view().contains(x) by {
                let j = choose|j: int| 0 <= j < before.len() && before[j] == x;
                assert(named.deep_view()[j] == x);
            }
            assert forall|j: int| 0 <= j < count implies (#[trigger] named@[j])@
                != all[i as int] by {
                let k = choose|k: int| 0 <= k < i && all[k] == named@[j]@;
                assert(search::text_less(all[k], all[i as int]));
                search::lemma_text_less_total(all[k], all[i as int]);
            }
        }
        i = i + 1;
    }
    assert forall|u: Seq<char>| #[trigger] is_token_unit(output@, prices@, u) implies exists|j: int|
        0 <= j < named@.len() && named@[j]@ == u by {
        assert(all.contains(u));
        let k = choose|k: int| 0 <= k < all.len() && all[k] == u;
        assert(named.deep_view().contains(all[k]));
        let j = choose|j: int| 0 <= j < named.deep_view().len() && named.deep_view()[j] == u;
        assert(named@[j]@ == u);
    }
    if named.len() != 1 {
        assert forall|m: Seq<char>, u: Seq<char>| !tells_metadata(output@, prices@, m, u) by {
            if tells_metadata(output@, prices@, m, u) {
                assert(named@.len() > 0);
                assert(is_token_unit(output@, prices@, named@[0]@));
                assert(is_token_unit(output@, prices@, named@[1]@));
            }
        }
        return None;
    }
    let t = TokenMetadata { mint_url: urls[0].clone(), unit: named[0].clone() };
    assert(mint_urls(output@) =~= seq![t.mint_url@]) by {
        assert(urls.deep_view()[0] == urls@[0]@);
    }
    assert(tells_metadata(output@, prices@, t.mint_url@, t.unit@));
    Some(t)
}

} // verus!
