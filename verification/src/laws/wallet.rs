//! Laws on what is read from the output of the wallet.

use vstd::prelude::*;

use crate::config::WorkerPrice;
use crate::laws::texts;
use crate::number;
use crate::search;
use crate::text;
use crate::text::CharClass;
use crate::wallet_output;

verus! {

// ---------------------------------------------------------------------------------------------
// URLs
// ---------------------------------------------------------------------------------------------

/// Whether a character ends a URL in running text: white space, a quote, a comma or a bracket.
pub open spec fn ends_url(c: char) -> bool {
    text::is_whitespace(c) || seq!['"', '\'', ',', '(', ')', '[', ']', '{', '}'].contains(c)
}

/// Whether a character at the end of a URL does not belong to it: a full stop or a semicolon.
pub open spec fn trails_url(c: char) -> bool {
    c == '.' || c == ';'
}

/// Whether `u` is written like a URL with this beginning: nothing in it ends a URL, and nothing at its
/// end trails one.
pub open spec fn is_url_with(u: Seq<char>, prefix: Seq<char>) -> bool {
    &&& prefix.is_prefix_of(u)
    &&& u.len() > 0
    &&& forall|i: int| 0 <= i < u.len() ==> !ends_url(#[trigger] u[i])
    &&& !trails_url(u.last())
}

/// Whether `u` stands in `s` from `i` on as a whole URL: what follows it, but for full stops and
/// semicolons, is a character that ends a URL, or the end of the text.
pub open spec fn stands_at(s: Seq<char>, u: Seq<char>, i: int) -> bool {
    &&& 0 <= i && i + u.len() <= s.len()
    &&& forall|j: int| 0 <= j < u.len() ==> s[i + j] == #[trigger] u[j]
    &&& exists|e: int| #[trigger] is_url_end(s, i + u.len(), e)
}

/// Whether the text from `from` up to `e` only trails a URL, and the URL ends at `e`.
pub open spec fn is_url_end(s: Seq<char>, from: int, e: int) -> bool {
    &&& from <= e <= s.len()
    &&& forall|j: int| from <= j < e ==> trails_url(#[trigger] s[j])
    &&& e < s.len() ==> ends_url(s[e])
}

/// Whether URLs can begin with `prefix`.
pub open spec fn is_url_prefix(prefix: Seq<char>) -> bool {
    &&& prefix.len() > 0
    &&& !trails_url(prefix.last())
    &&& forall|i: int| 0 <= i < prefix.len() ==> !ends_url(#[trigger] prefix[i])
}

proof fn lemma_url_classes(c: char)
    ensures
        CharClass::UrlEnd.holds(c) <==> ends_url(c),
        CharClass::UrlTail.holds(c) <==> trails_url(c),
{
    let all = seq!['"', '\'', ',', '(', ')', '[', ']', '{', '}'];
    assert(all[0] == '"' && all[1] == '\'' && all[2] == ',' && all[3] == '(' && all[4] == ')');
    assert(all[5] == '[' && all[6] == ']' && all[7] == '{' && all[8] == '}');
    if all.contains(c) {
        let i = choose|i: int| 0 <= i < all.len() && all[i] == c;
        assert(0 <= i < 9);
    }
}

/// `https://` and `http://` are beginnings of URLs.
pub proof fn lemma_url_prefixes()
    ensures
        is_url_prefix("https://"@),
        is_url_prefix("http://"@),
{
    reveal_strlit("https://");
    reveal_strlit("http://");
    let a = "https://"@;
    let b = "http://"@;
    assert(a.len() == 8 && b.len() == 7);
    assert forall|i: int| 0 <= i < a.len() implies !ends_url(#[trigger] a[i]) by {
        lemma_url_classes(a[i]);
    }
    assert forall|i: int| 0 <= i < b.len() implies !ends_url(#[trigger] b[i]) by {
        lemma_url_classes(b[i]);
    }
}

/// The URLs of a text are found from the first one on: where the text is `a`, then a URL, then what
/// only trails it, and then `b`, which is empty or begins with what ends a URL, the first URL is that
/// one, to its last character, and the others are those of `b`. Nothing in `a` counts, as long as no
/// URL begins there.
pub proof fn lemma_first_url_is_read(
    a: Seq<char>,
    u: Seq<char>,
    t: Seq<char>,
    b: Seq<char>,
    prefix: Seq<char>,
)
    requires
        is_url_prefix(prefix),
        is_url_with(u, prefix),
        forall|i: int| 0 <= i < t.len() ==> trails_url(#[trigger] t[i]),
        b.len() > 0 ==> ends_url(b[0]),
        forall|i: int| 0 <= i < a.len() ==> !search::occurs_at(a + u + t + b, prefix, i),
    ensures
        wallet_output::urls_with(a + u + t + b, prefix) == seq![u] + wallet_output::urls_with(
            b,
            prefix,
        ),
{
    let s = a + u + t + b;
    let start = a.len() as int;
    assert(s.subrange(start, start + prefix.len()) =~= prefix) by {
        assert(u.subrange(0, prefix.len() as int) =~= prefix);
        assert forall|j: int| 0 <= j < prefix.len() implies s[start + j] == prefix[j] by {
            assert(s[start + j] == u[j]);
            assert(u.subrange(0, prefix.len() as int)[j] == u[j]);
        }
    }
    assert(search::occurs_at(s, prefix, start));
    assert(search::first_at(s, prefix, start));
    search::lemma_first_at_is_index(s, prefix, start);
    let candidate = s.skip(start);
    let whole = u + t;
    let end = whole.len() as int;
    assert(candidate =~= whole + b);
    assert forall|i: int| 0 <= i < end implies !CharClass::UrlEnd.holds(#[trigger] candidate[i]) by {
        lemma_url_classes(candidate[i]);
        if i < u.len() {
            assert(candidate[i] == u[i]);
        } else {
            assert(candidate[i] == t[i - u.len()]);
            lemma_trails_do_not_end(t[i - u.len()]);
        }
    }
    if end < candidate.len() {
        assert(candidate[end] == b[0]);
        lemma_url_classes(b[0]);
    }
    text::lemma_position_is(candidate, CharClass::UrlEnd, end);
    assert(candidate.take(end) =~= whole);
    assert(texts::all_of(t, CharClass::UrlTail)) by {
        assert forall|i: int| 0 <= i < t.len() implies CharClass::UrlTail.holds(#[trigger] t[i]) by {
            lemma_url_classes(t[i]);
        }
    }
    lemma_url_classes(u.last());
    texts::lemma_trim_end_of(u, t, CharClass::UrlTail);
    assert(candidate.skip(end) =~= b);
    assert(search::contains_text(s, prefix));
}

proof fn lemma_trails_do_not_end(c: char)
    requires
        trails_url(c),
    ensures
        !ends_url(c),
{
    lemma_url_classes(c);
}

/// A text in which no URL begins has none.
pub proof fn lemma_no_url_is_read(s: Seq<char>, prefix: Seq<char>)
    requires
        forall|i: int| !search::occurs_at(s, prefix, i),
    ensures
        wallet_output::urls_with(s, prefix) == Seq::<Seq<char>>::empty(),
{
}

/// Every URL that is read from a text is a stretch of it that stands there as a whole: it begins with
/// the prefix, nothing in it ends a URL, and what follows it does.
pub proof fn lemma_urls_stand_in_the_text(s: Seq<char>, prefix: Seq<char>, k: int)
    requires
        is_url_prefix(prefix),
        0 <= k < wallet_output::urls_with(s, prefix).len(),
    ensures
        is_url_with(wallet_output::urls_with(s, prefix)[k], prefix),
        exists|i: int| #[trigger] stands_at(s, wallet_output::urls_with(s, prefix)[k], i),
    decreases s.len(),
{
    let urls = wallet_output::urls_with(s, prefix);
    let start = search::index_of_text(s, prefix);
    search::lemma_index_of_text(s, prefix);
    let candidate = s.skip(start);
    text::lemma_position(candidate, CharClass::UrlEnd);
    let end = text::position(candidate, CharClass::UrlEnd) as int;
    let rest = candidate.skip(end);
    if k > 0 {
        assert(urls[k] == wallet_output::urls_with(rest, prefix)[k - 1]);
        lemma_urls_stand_in_the_text(rest, prefix, k - 1);
        let u = urls[k];
        let i = choose|i: int| #[trigger] stands_at(rest, u, i);
        let shift = start + end;
        assert(rest =~= s.skip(shift));
        assert(stands_at(s, u, shift + i)) by {
            assert forall|j: int| 0 <= j < u.len() implies s[shift + i + j] == #[trigger] u[j] by {
                assert(rest[i + j] == u[j]);
            }
            let e = choose|e: int| #[trigger] is_url_end(rest, i + u.len(), e);
            assert forall|j: int| shift + i + u.len() <= j < shift + e implies trails_url(
                #[trigger] s[j],
            ) by {
                assert(rest[j - shift] == s[j]);
            }
            if e < rest.len() {
                assert(rest[e] == s[shift + e]);
            }
            assert(is_url_end(s, shift + i + u.len(), shift + e));
        }
    } else {
        let whole = candidate.take(end);
        let u = urls[0];
        assert(u == text::trim_end(whole, CharClass::UrlTail));
        lemma_trimmed(whole, CharClass::UrlTail);
        let n = u.len() as int;
        assert(s.subrange(start, start + prefix.len()) == prefix);
        assert(prefix.len() <= end) by {
            if end < prefix.len() {
                assert(candidate[end] == s.subrange(start, start + prefix.len())[end]);
                lemma_url_classes(prefix[end]);
            }
        }
        assert(prefix.len() <= n) by {
            if n < prefix.len() {
                let m = prefix.len() - 1;
                assert(whole[m] == s.subrange(start, start + prefix.len())[m]);
                lemma_url_classes(prefix.last());
                assert(CharClass::UrlTail.holds(whole[m]));
            }
        }
        assert(prefix =~= u.take(prefix.len() as int)) by {
            assert forall|j: int| 0 <= j < prefix.len() implies u[j] == prefix[j] by {
                assert(s.subrange(start, start + prefix.len())[j] == s[start + j]);
                assert(u[j] == whole[j]);
            }
        }
        assert forall|i: int| 0 <= i < u.len() implies !ends_url(#[trigger] u[i]) by {
            assert(u[i] == candidate[i]);
            lemma_url_classes(u[i]);
        }
        lemma_url_classes(u.last());
        assert(stands_at(s, u, start)) by {
            assert forall|j: int| 0 <= j < u.len() implies s[start + j] == #[trigger] u[j] by {
                assert(u[j] == whole[j]);
            }
            assert forall|j: int| start + n <= j < start + end implies trails_url(
                #[trigger] s[j],
            ) by {
                assert(CharClass::UrlTail.holds(whole[j - start]));
                lemma_url_classes(s[j]);
            }
            if start + end < s.len() {
                assert(s[start + end] == candidate[end]);
                lemma_url_classes(s[start + end]);
            }
            assert(is_url_end(s, start + n, start + end));
        }
    }
}

/// What trimming the end leaves is a beginning of the text that does not end with the class, and what
/// it takes off belongs to the class.
proof fn lemma_trimmed(s: Seq<char>, k: CharClass)
    ensures
        text::trim_end(s, k).len() <= s.len(),
        text::trim_end(s, k) == s.take(text::trim_end(s, k).len() as int),
        text::trim_end(s, k).len() > 0 ==> !k.holds(text::trim_end(s, k).last()),
        forall|i: int| text::trim_end(s, k).len() <= i < s.len() ==> k.holds(#[trigger] s[i]),
    decreases s.len(),
{
    if s.len() > 0 && k.holds(s.last()) {
        let t = s.drop_last();
        lemma_trimmed(t, k);
        let n = text::trim_end(s, k).len() as int;
        assert(t.take(n) =~= s.take(n));
        assert forall|i: int| n <= i < s.len() implies k.holds(#[trigger] s[i]) by {
            if i < t.len() {
                assert(t[i] == s[i]);
            }
        }
    } else {
        assert(s.take(s.len() as int) =~= s);
    }
}

/// Whether neither kind of URL begins in a text.
pub open spec fn has_no_url(s: Seq<char>) -> bool {
    &&& forall|i: int| !search::occurs_at(s, "https://"@, i)
    &&& forall|i: int| !search::occurs_at(s, "http://"@, i)
}

/// A text between others is found only inside one of them, where the characters between them do not
/// occur in it.
proof fn lemma_occurrence(x: Seq<char>, c: char, y: Seq<char>, n: Seq<char>, i: int)
    requires
        search::occurs_at(x.push(c) + y, n, i),
        !n.contains(c),
        n.len() > 0,
    ensures
        search::occurs_at(x, n, i) || search::occurs_at(y, n, i - x.len() - 1),
{
    let s = x.push(c) + y;
    let m = x.len() as int;
    if i <= m < i + n.len() {
        assert(s[m] == c);
        assert(s.subrange(i, i + n.len())[m - i] == c);
        assert(n[m - i] == c);
    } else if i + n.len() <= m {
        assert(x.subrange(i, i + n.len()) =~= s.subrange(i, i + n.len()));
    } else {
        assert(y.subrange(i - m - 1, i - m - 1 + n.len()) =~= s.subrange(i, i + n.len()));
    }
}

/// A URL between two quotes, or between other characters that end one, in a text without another is
/// read as exactly that URL: with its port, its path and whatever else it has.
pub proof fn lemma_single_url_is_read(
    a: Seq<char>,
    open: char,
    u: Seq<char>,
    close: char,
    b: Seq<char>,
)
    requires
        has_no_url(a),
        has_no_url(b),
        ends_url(open),
        ends_url(close),
        is_url_with(u, "https://"@) || is_url_with(u, "http://"@),
        has_no_url(u.drop_first()),
    ensures
        wallet_output::mint_urls(a.push(open) + u + seq![close] + b) == seq![u],
{
    lemma_url_prefixes();
    reveal_strlit("https://");
    reveal_strlit("http://");
    let s = a.push(open) + u + seq![close] + b;
    lemma_url_of_kind(a, open, u, close, b, "https://"@);
    lemma_url_of_kind(a, open, u, close, b, "http://"@);
    let secure = wallet_output::urls_with(s, "https://"@);
    let plain = wallet_output::urls_with(s, "http://"@);
    let none = Seq::<Seq<char>>::empty();
    assert("https://"@[4] == 's' && "http://"@[4] == ':');
    if is_url_with(u, "https://"@) {
        assert(!"http://"@.is_prefix_of(u)) by {
            assert(u[4] == u.take(8)[4]);
            if "http://"@.is_prefix_of(u) {
                assert(u[4] == u.take(7)[4]);
            }
        }
        assert(secure + plain =~= seq![u]);
    } else {
        assert(!"https://"@.is_prefix_of(u)) by {
            assert(u[4] == u.take(7)[4]);
            if "https://"@.is_prefix_of(u) {
                assert(u[4] == u.take(8)[4]);
            }
        }
        assert(secure + plain =~= seq![u]);
    }
    let one = seq![u];
    assert(one.drop_last() =~= none);
    assert(wallet_output::without_repeats(one.drop_last()) =~= none);
    assert(none.push(u) =~= one);
}

proof fn lemma_url_of_kind(
    a: Seq<char>,
    open: char,
    u: Seq<char>,
    close: char,
    b: Seq<char>,
    prefix: Seq<char>,
)
    requires
        is_url_prefix(prefix),
        forall|i: int| !search::occurs_at(a, prefix, i),
        forall|i: int| !search::occurs_at(b, prefix, i),
        forall|i: int| !search::occurs_at(u.drop_first(), prefix, i),
        ends_url(open),
        ends_url(close),
        u.len() > 0,
        forall|i: int| 0 <= i < u.len() ==> !ends_url(#[trigger] u[i]),
        !trails_url(u.last()),
    ensures
        ({
            let urls = wallet_output::urls_with(a.push(open) + u + seq![close] + b, prefix);
            if prefix.is_prefix_of(u) {
                urls == seq![u]
            } else {
                urls == Seq::<Seq<char>>::empty()
            }
        }),
{
    let s = a.push(open) + u + seq![close] + b;
    let tail = u.push(close) + b;
    let none: Seq<char> = seq![];
    assert(s =~= a.push(open) + tail);
    assert(!prefix.contains(open) && !prefix.contains(close)) by {
        if prefix.contains(open) {
            let i = choose|i: int| 0 <= i < prefix.len() && prefix[i] == open;
            assert(!ends_url(prefix[i]));
        }
        if prefix.contains(close) {
            let i = choose|i: int| 0 <= i < prefix.len() && prefix[i] == close;
            assert(!ends_url(prefix[i]));
        }
    }
    assert forall|i: int| search::occurs_at(s, prefix, i) implies i == a.len() + 1
        && prefix.is_prefix_of(u) by {
        lemma_occurrence(a, open, tail, prefix, i);
        let j = i - a.len() - 1;
        assert(search::occurs_at(tail, prefix, j));
        lemma_occurrence(u, close, b, prefix, j);
        assert(search::occurs_at(u, prefix, j));
        if j > 0 {
            let v = u.drop_first();
            assert(v.subrange(j - 1, j - 1 + prefix.len()) =~= u.subrange(j, j + prefix.len()));
            assert(search::occurs_at(v, prefix, j - 1));
        } else {
            assert(u.take(prefix.len() as int) =~= u.subrange(0, prefix.len() as int));
        }
    }
    if prefix.is_prefix_of(u) {
        let head = a.push(open);
        let behind = seq![close] + b;
        assert(head + u + none + behind =~= s);
        lemma_first_url_is_read(head, u, none, behind, prefix);
        assert forall|i: int| !search::occurs_at(behind, prefix, i) by {
            if search::occurs_at(behind, prefix, i) {
                assert(behind =~= none.push(close) + b);
                lemma_occurrence(none, close, b, prefix, i);
            }
        }
        lemma_no_url_is_read(behind, prefix);
        assert(seq![u] + Seq::<Seq<char>>::empty() =~= seq![u]);
    } else {
        assert forall|i: int| !search::occurs_at(s, prefix, i) by {}
        lemma_no_url_is_read(s, prefix);
    }
}

/// The mint of a token is the URL in the output, to its last character: where the output has one URL
/// between two characters that end one, that is the mint.
pub proof fn lemma_mint_is_the_url(
    a: Seq<char>,
    open: char,
    u: Seq<char>,
    close: char,
    b: Seq<char>,
    prices: Seq<WorkerPrice>,
    mint_url: Seq<char>,
    unit: Seq<char>,
)
    requires
        has_no_url(a),
        has_no_url(b),
        ends_url(open),
        ends_url(close),
        is_url_with(u, "https://"@) || is_url_with(u, "http://"@),
        has_no_url(u.drop_first()),
        wallet_output::tells_metadata(
            a.push(open) + u + seq![close] + b,
            prices,
            mint_url,
            unit,
        ),
    ensures
        mint_url == u,
{
    lemma_single_url_is_read(a, open, u, close, b);
    assert(seq![u][0] == seq![mint_url][0]);
}

/// A URL counts once, however often it stands in the output, and none is left out.
pub proof fn lemma_urls_count_once(output: Seq<char>, u: Seq<char>)
    ensures
        wallet_output::mint_urls(output).no_duplicates(),
        wallet_output::mint_urls(output).contains(u) <==> wallet_output::urls_with(
            output,
            "https://"@,
        ).contains(u) || wallet_output::urls_with(output, "http://"@).contains(u),
{
    let (a, b) = (
        wallet_output::urls_with(output, "https://"@),
        wallet_output::urls_with(output, "http://"@),
    );
    wallet_output::lemma_without_repeats(a + b);
    if a.contains(u) {
        let i = choose|i: int| 0 <= i < a.len() && a[i] == u;
        assert((a + b)[i] == u);
    }
    if b.contains(u) {
        let i = choose|i: int| 0 <= i < b.len() && b[i] == u;
        assert((a + b)[a.len() + i] == u);
    }
    if (a + b).contains(u) {
        let i = choose|i: int| 0 <= i < (a + b).len() && (a + b)[i] == u;
        if i < a.len() {
            assert(a[i] == u);
        } else {
            assert(b[i - a.len()] == u);
        }
    }
}

/// Where all URLs in the output are the same, there is one mint.
pub proof fn lemma_one_mint_may_be_repeated(output: Seq<char>, u: Seq<char>)
    requires
        wallet_output::urls_with(output, "https://"@).contains(u) || wallet_output::urls_with(
            output,
            "http://"@,
        ).contains(u),
        forall|i: int|
            0 <= i < wallet_output::urls_with(output, "https://"@).len()
                ==> #[trigger] wallet_output::urls_with(output, "https://"@)[i] == u,
        forall|i: int|
            0 <= i < wallet_output::urls_with(output, "http://"@).len()
                ==> #[trigger] wallet_output::urls_with(output, "http://"@)[i] == u,
    ensures
        wallet_output::mint_urls(output) == seq![u],
{
    let m = wallet_output::mint_urls(output);
    lemma_urls_count_once(output, u);
    assert forall|i: int| 0 <= i < m.len() implies #[trigger] m[i] == u by {
        lemma_urls_count_once(output, m[i]);
        assert(m.contains(m[i]));
    }
    let k = choose|k: int| 0 <= k < m.len() && m[k] == u;
    if m.len() > 1 {
        assert(m[0] == m[1]);
    }
    assert(m =~= seq![u]);
}

// ---------------------------------------------------------------------------------------------
// Amounts
// ---------------------------------------------------------------------------------------------

/// Whether every character is a decimal digit.
pub open spec fn is_digits(s: Seq<char>) -> bool {
    forall|i: int| 0 <= i < s.len() ==> '0' <= #[trigger] s[i] <= '9'
}

/// Whether no character is a decimal digit.
pub open spec fn has_no_digit(s: Seq<char>) -> bool {
    forall|i: int| 0 <= i < s.len() ==> !('0' <= #[trigger] s[i] <= '9')
}

/// The first number in a text is its first run of digits, to the last of them, where that fits 64
/// bits. What stands in front of it and behind it does not matter, and without digits there is none.
pub proof fn lemma_first_number_is_read(a: Seq<char>, d: Seq<char>, b: Seq<char>)
    requires
        has_no_digit(a),
        is_digits(d),
        d.len() > 0,
        b.len() > 0 ==> !('0' <= b[0] <= '9'),
    ensures
        wallet_output::first_number(a) is None,
        number::digits_value(d) <= u64::MAX ==> wallet_output::first_number(a + d + b) == Some(
            number::digits_value(d),
        ),
        number::digits_value(d) > u64::MAX ==> wallet_output::first_number(a + d + b) is None,
    decreases a.len(),
{
    let none: Seq<char> = seq![];
    let s = a + d + b;
    if a.len() > 0 {
        let rest = a.drop_first();
        lemma_first_number_is_read(rest, d, b);
        assert(s =~= none.push(a[0]) + (rest + d + b));
        assert(a =~= none.push(a[0]) + rest);
        assert(!('0' <= a[0] <= '9'));
        lemma_runs_behind(a[0], rest + d + b);
        lemma_runs_behind(a[0], rest);
    } else {
        assert(a =~= none);
        assert(s =~= d + b);
        lemma_runs_of_digits(d, b);
        lemma_no_runs();
        assert('0' <= d[0] <= '9');
        texts::lemma_numbers_are_read(d, u64::MAX as nat);
    }
}

/// The runs of digits in a text.
spec fn runs(s: Seq<char>) -> Seq<Seq<char>> {
    text::split(s, CharClass::NonDigit).filter(|w: Seq<char>| w.len() > 0)
}

proof fn lemma_no_runs()
    ensures
        runs(Seq::<char>::empty()).len() == 0,
{
    let none: Seq<char> = seq![];
    texts::lemma_split_single(none, CharClass::NonDigit);
    texts::lemma_filter_one(none, |w: Seq<char>| w.len() > 0);
}

proof fn lemma_runs_behind(c: char, rest: Seq<char>)
    requires
        !('0' <= c <= '9'),
    ensures
        runs(Seq::<char>::empty().push(c) + rest) == runs(rest),
{
    let k = CharClass::NonDigit;
    let keep = |w: Seq<char>| w.len() > 0;
    let none: Seq<char> = seq![];
    texts::lemma_split_of(none, c, rest, k);
    Seq::filter_distributes_over_add(seq![none], text::split(rest, k), keep);
    texts::lemma_filter_one(none, keep);
    assert(runs(none.push(c) + rest) =~= runs(rest));
}

proof fn lemma_runs_of_digits(d: Seq<char>, b: Seq<char>)
    requires
        is_digits(d),
        d.len() > 0,
        b.len() > 0 ==> !('0' <= b[0] <= '9'),
    ensures
        runs(d + b).len() > 0,
        runs(d + b)[0] == d,
{
    let k = CharClass::NonDigit;
    let keep = |w: Seq<char>| w.len() > 0;
    assert(texts::none_of(d, k)) by {
        assert forall|i: int| 0 <= i < d.len() implies !k.holds(#[trigger] d[i]) by {
            assert('0' <= d[i] <= '9');
        }
    }
    texts::lemma_filter_one(d, keep);
    if b.len() > 0 {
        let rest = b.drop_first();
        assert(d + b =~= d.push(b[0]) + rest);
        texts::lemma_split_of(d, b[0], rest, k);
        Seq::filter_distributes_over_add(seq![d], text::split(rest, k), keep);
        assert(runs(d + b) == seq![d] + runs(rest));
    } else {
        assert(d + b =~= d);
        texts::lemma_split_single(d, k);
        assert(runs(d + b) == seq![d]);
    }
}

/// Whether a line speaks of something received, in letters of any case, and states a number.
pub open spec fn states_received(line: Seq<char>, n: nat) -> bool {
    &&& search::contains_text(search::lowercase(line), "received"@)
    &&& wallet_output::first_number(line) == Some(n)
}

/// Whether the line at `i` is the first one that states what was received.
pub open spec fn first_to_state(lines: Seq<Seq<char>>, i: int, n: nat) -> bool {
    &&& 0 <= i < lines.len()
    &&& states_received(lines[i], n)
    &&& forall|j: int, m: nat| 0 <= j < i ==> !#[trigger] states_received(lines[j], m)
}

/// The amount that the wallet received is that of the first line that states one, unless it is zero;
/// where no line states one, there is none.
pub proof fn lemma_received_amount(output: Seq<char>, n: nat)
    ensures
        wallet_output::received_amount(output) == Some(n) <==> n > 0 && exists|i: int|
            first_to_state(text::lines(output), i, n),
{
    lemma_first_amount(text::lines(output), n);
}

proof fn lemma_first_amount(lines: Seq<Seq<char>>, n: nat)
    ensures
        wallet_output::first_amount(lines) == Some(n) <==> exists|i: int|
            first_to_state(lines, i, n),
    decreases lines.len(),
{
    if lines.len() > 0 {
        let t = lines.drop_first();
        lemma_first_amount(t, n);
        if wallet_output::line_amount(lines[0]) is Some {
            let m = wallet_output::line_amount(lines[0])->0;
            assert(states_received(lines[0], m));
            if m == n {
                assert(first_to_state(lines, 0, n));
            }
            assert forall|i: int| first_to_state(lines, i, n) implies m == n by {
                if i > 0 {
                    assert(!states_received(lines[0], m));
                }
            }
        } else {
            assert forall|m: nat| !states_received(lines[0], m) by {}
            if wallet_output::first_amount(t) == Some(n) {
                let i = choose|i: int| first_to_state(t, i, n);
                assert(lines[i + 1] == t[i]);
                assert forall|j: int, m: nat| 0 <= j < i + 1 implies !#[trigger] states_received(
                    lines[j],
                    m,
                ) by {
                    if j > 0 {
                        assert(!states_received(t[j - 1], m));
                    }
                }
                assert(first_to_state(lines, i + 1, n));
            }
            if exists|i: int| first_to_state(lines, i, n) {
                let i = choose|i: int| first_to_state(lines, i, n);
                assert(i > 0);
                assert(t[i - 1] == lines[i]);
                assert forall|j: int, m: nat| 0 <= j < i - 1 implies !#[trigger] states_received(
                    t[j],
                    m,
                ) by {
                    assert(!states_received(lines[j + 1], m));
                }
                assert(first_to_state(t, i - 1, n));
            }
        }
    }
}

// ---------------------------------------------------------------------------------------------
// Balances
// ---------------------------------------------------------------------------------------------

/// White space in front of words does not matter.
pub proof fn lemma_words_after_white(w: Seq<char>, rest: Seq<char>)
    requires
        texts::is_white(w),
    ensures
        text::words(w + rest) == text::words(rest),
    decreases w.len(),
{
    let none: Seq<char> = seq![];
    if w.len() > 0 {
        let t = w.drop_first();
        lemma_words_after_white(t, rest);
        assert(text::is_whitespace(w[0]));
        texts::lemma_words(none, w[0], t + rest);
        assert(none.push(w[0]) + (t + rest) =~= w + rest);
    } else {
        assert(w + rest =~= rest);
    }
}

/// A balance line is read back: a number, a colon, and then the mint, the amount and the unit, with
/// white space between them and around them. Each of them comes out whole and at its place.
pub proof fn lemma_balance_lines_read_back(
    head: Seq<char>,
    index: Seq<char>,
    gap: Seq<char>,
    mint_url: Seq<char>,
    c: char,
    amount: nat,
    d: char,
    unit: Seq<char>,
    tail: Seq<char>,
)
    requires
        texts::is_white(head),
        texts::is_white(gap),
        texts::is_white(tail),
        text::is_whitespace(c),
        text::is_whitespace(d),
        index.len() > 0,
        is_digits(index),
        number::digits_value(index) <= usize::MAX,
        mint_url.len() > 0,
        texts::has_no_white(mint_url),
        unit.len() > 0,
        texts::has_no_white(unit),
        amount <= u64::MAX,
    ensures
        wallet_output::balance_line(
            head + (index.push(':') + gap + mint_url.push(c) + number::decimal(amount).push(d)
                + unit) + tail,
        ) == Some(wallet_output::BalanceView { mint_url, amount, unit }),
{
    let n = number::decimal(amount);
    let core = index.push(':') + gap + mint_url.push(c) + n.push(d) + unit;
    let line = head + core + tail;
    assert('0' <= index[0] <= '9');
    assert(core[0] == index[0]);
    assert(core.last() == unit[unit.len() - 1]);
    texts::lemma_trim_takes_white_space_off(head, core, tail);
    let k = CharClass::Colon;
    let p = index.len() as int;
    assert forall|i: int| 0 <= i < p implies !k.holds(#[trigger] core[i]) by {
        assert(core[i] == index[i]);
        assert('0' <= index[i] <= '9');
    }
    assert(core[p] == ':');
    text::lemma_position_is(core, k, p);
    assert(core.take(p) =~= index);
    let rest = core.skip(p + 1);
    let words = mint_url.push(c) + (n.push(d) + unit);
    assert(rest =~= gap + words);
    lemma_words_after_white(gap, words);
    texts::lemma_words(mint_url, c, n.push(d) + unit);
    texts::lemma_decimals_read_back(amount, u64::MAX as nat);
    assert(texts::has_no_white(n)) by {
        assert forall|i: int| 0 <= i < n.len() implies !text::is_whitespace(#[trigger] n[i]) by {
            assert('0' <= n[i] <= '9');
        }
    }
    texts::lemma_words(n, d, unit);
    texts::lemma_words(unit, c, unit);
    let fields = text::words(rest);
    assert(fields == seq![mint_url] + (seq![n] + seq![unit]));
    assert(fields.len() == 3 && fields[0] == mint_url && fields[1] == n && fields[2] == unit);
    texts::lemma_numbers_are_read(index, usize::MAX as nat);
}

/// What a line without a colon, or without three words behind a number and a colon, says is no
/// balance; and the mint and the unit of a balance are words of the line.
pub proof fn lemma_balance_lines(line: Seq<char>, index: Seq<char>, rest: Seq<char>)
    requires
        text::trim_spec(line) == index.push(':') + rest,
        !index.contains(':'),
    ensures
        wallet_output::balance_line(line) is Some <==> {
            &&& number::parse_up_to(index, usize::MAX as nat) is Some
            &&& text::words(rest).len() >= 3
            &&& number::parse_up_to(text::words(rest)[1], u64::MAX as nat) is Some
        },
        wallet_output::balance_line(line) matches Some(b) ==> {
            &&& b.mint_url == text::words(rest)[0]
            &&& number::parse_up_to(text::words(rest)[1], u64::MAX as nat) == Some(b.amount)
            &&& b.unit == text::words(rest)[2]
        },
{
    let t = text::trim_spec(line);
    let k = CharClass::Colon;
    let p = index.len() as int;
    assert forall|i: int| 0 <= i < p implies !k.holds(#[trigger] t[i]) by {
        assert(t[i] == index[i]);
        if index[i] == ':' {
            assert(index.contains(':'));
        }
    }
    text::lemma_position_is(t, k, p);
    assert(t.take(p) =~= index);
    assert(t.skip(p + 1) =~= rest);
}

/// A line without a colon is no balance.
pub proof fn lemma_no_colon_no_balance(line: Seq<char>)
    requires
        !text::trim_spec(line).contains(':'),
    ensures
        wallet_output::balance_line(line) is None,
{
    let t = text::trim_spec(line);
    text::lemma_position(t, CharClass::Colon);
    let p = text::position(t, CharClass::Colon) as int;
    if p < t.len() {
        assert(t[p] == ':');
        assert(t.contains(':'));
    }
}

/// What is picked from two lists is what is picked from the first, and then from the second.
pub proof fn lemma_picked_from_both<A, B>(a: Seq<A>, b: Seq<A>, f: spec_fn(A) -> Option<B>)
    ensures
        (a + b).filter_map(f) == a.filter_map(f) + b.filter_map(f),
    decreases b.len(),
{
    if b.len() > 0 {
        lemma_picked_from_both(a, b.drop_last(), f);
        assert((a + b).drop_last() =~= a + b.drop_last());
        assert((a + b).last() == b.last());
        match f(b.last()) {
            Some(x) => {
                assert((a.filter_map(f) + b.drop_last().filter_map(f)) + seq![x] =~= a.filter_map(f)
                    + (b.drop_last().filter_map(f) + seq![x]));
            },
            None => {},
        }
    } else {
        assert(a + b =~= a);
        assert(a.filter_map(f) + b.filter_map(f) =~= a.filter_map(f));
    }
}

/// What is picked from a list of one item.
pub proof fn lemma_picked_from_one<A, B>(x: A, f: spec_fn(A) -> Option<B>)
    ensures
        f(x) matches Some(y) ==> seq![x].filter_map(f) == seq![y],
        f(x) is None ==> seq![x].filter_map(f) == Seq::<B>::empty(),
{
    let one = seq![x];
    assert(one.drop_last() =~= Seq::<A>::empty());
    assert(one.drop_last().filter_map(f) =~= Seq::<B>::empty());
    if let Some(y) = f(x) {
        assert(Seq::<B>::empty() + seq![y] =~= seq![y]);
    }
}

/// The balances of an output: that of its first line, where the line states one, and then those of the
/// other lines. None is left out, and none comes twice.
pub proof fn lemma_balances(line: Seq<char>, rest: Seq<char>)
    requires
        !line.contains('\n'),
        line.len() > 0 ==> line.last() != '\r',
    ensures
        wallet_output::balance_line(line) matches Some(b) ==> wallet_output::balances(
            line.push('\n') + rest,
        ) == seq![b] + wallet_output::balances(rest),
        wallet_output::balance_line(line) is None ==> wallet_output::balances(
            line.push('\n') + rest,
        ) == wallet_output::balances(rest),
        wallet_output::balances(Seq::<char>::empty()) == Seq::<wallet_output::BalanceView>::empty(),
{
    let f = |l: Seq<char>| wallet_output::balance_line(l);
    texts::lemma_lines_of(line, rest);
    texts::lemma_lines_of(Seq::<char>::empty(), rest);
    lemma_picked_from_both(seq![line], text::lines(rest), f);
    lemma_picked_from_one(line, f);
    if wallet_output::balance_line(line) is None {
        assert(seq![line].filter_map(f) + text::lines(rest).filter_map(f) =~= text::lines(
            rest,
        ).filter_map(f));
    }
}

// ---------------------------------------------------------------------------------------------
// Tokens
// ---------------------------------------------------------------------------------------------

/// Whether every character is a quote, a comma or a semicolon.
pub open spec fn is_frame(s: Seq<char>) -> bool {
    forall|i: int| 0 <= i < s.len() ==> #[trigger] s[i] == '"' || s[i] == '\'' || s[i] == ','
        || s[i] == ';'
}

/// Whether `t` is written like a token of either version.
pub open spec fn is_token(t: Seq<char>) -> bool {
    &&& t.len() >= 6
    &&& t.take(5) == seq!['c', 'a', 's', 'h', 'u']
    &&& t[5] == 'A' || t[5] == 'B'
}

proof fn lemma_token_prefixes(t: Seq<char>)
    ensures
        wallet_output::is_cashu_token(t) <==> is_token(t),
{
    reveal_strlit("cashuA");
    reveal_strlit("cashuB");
    let a = "cashuA"@;
    let b = "cashuB"@;
    let five = seq!['c', 'a', 's', 'h', 'u'];
    assert(a =~= five.push('A'));
    assert(b =~= five.push('B'));
    if a.is_prefix_of(t) {
        assert(t.take(6) =~= a);
        assert(t.take(5) =~= t.take(6).take(5));
        assert(t.take(6).take(5) =~= five);
        assert(t[5] == t.take(6)[5]);
    }
    if b.is_prefix_of(t) {
        assert(t.take(6) =~= b);
        assert(t.take(5) =~= t.take(6).take(5));
        assert(t.take(6).take(5) =~= five);
        assert(t[5] == t.take(6)[5]);
    }
    if is_token(t) {
        assert(t.take(6) =~= t.take(5).push(t[5]));
    }
}

/// The token that is found is the first word that is written like one, without the quotes and
/// separators around it and otherwise whole; where there is no such word, none is found.
pub proof fn lemma_first_token_is_found(
    words: Seq<Seq<char>>,
    i: int,
    head: Seq<char>,
    t: Seq<char>,
    tail: Seq<char>,
)
    requires
        0 <= i < words.len(),
        words[i] == head + t + tail,
        is_frame(head),
        is_frame(tail),
        is_token(t),
        !is_frame(seq![t.last()]),
        forall|j: int| 0 <= j < i ==> !is_token(wallet_output::unframed(#[trigger] words[j])),
    ensures
        wallet_output::first_token(words) == Some(t),
    decreases words.len(),
{
    let k = CharClass::TokenFrame;
    assert(!k.holds(t.last())) by {
        if k.holds(t.last()) {
            assert(is_frame(seq![t.last()]));
        }
    }
    assert(t[0] == t.take(5)[0]);
    assert(texts::all_of(head, k) && texts::all_of(tail, k));
    texts::lemma_trim_of(head, t, tail, k);
    lemma_token_prefixes(wallet_output::unframed(words[0]));
    if i > 0 {
        let rest = words.drop_first();
        assert(rest[i - 1] == words[i]);
        assert forall|j: int| 0 <= j < i - 1 implies !is_token(
            wallet_output::unframed(#[trigger] rest[j]),
        ) by {
            assert(rest[j] == words[j + 1]);
        }
        assert(!is_token(wallet_output::unframed(words[0])));
        lemma_first_token_is_found(rest, i - 1, head, t, tail);
    }
}

/// A token that is found is written like one, has no quotes or separators at its ends, and is a word
/// of the output without those; where none is found, no word is written like one.
pub proof fn lemma_found_tokens(words: Seq<Seq<char>>)
    ensures
        wallet_output::first_token(words) matches Some(t) ==> is_token(t) && exists|i: int|
            0 <= i < words.len() && wallet_output::unframed(#[trigger] words[i]) == t,
        wallet_output::first_token(words) is None ==> forall|i: int|
            0 <= i < words.len() ==> !is_token(wallet_output::unframed(#[trigger] words[i])),
    decreases words.len(),
{
    if words.len() > 0 {
        let rest = words.drop_first();
        lemma_found_tokens(rest);
        lemma_token_prefixes(wallet_output::unframed(words[0]));
        if !is_token(wallet_output::unframed(words[0])) {
            if let Some(t) = wallet_output::first_token(rest) {
                let i = choose|i: int|
                    0 <= i < rest.len() && wallet_output::unframed(#[trigger] rest[i]) == t;
                assert(words[i + 1] == rest[i]);
            }
            if wallet_output::first_token(rest) is None {
                assert forall|i: int| 0 <= i < words.len() implies !is_token(
                    wallet_output::unframed(#[trigger] words[i]),
                ) by {
                    if i > 0 {
                        assert(words[i] == rest[i - 1]);
                    }
                }
            }
        } else {
            assert(wallet_output::unframed(words[0]) == wallet_output::first_token(words)->0);
        }
    }
}

// ---------------------------------------------------------------------------------------------
// Units
// ---------------------------------------------------------------------------------------------

/// Whether a character is an ASCII letter, a decimal digit or an underscore.
pub open spec fn is_word_letter(c: char) -> bool {
    'a' <= c <= 'z' || 'A' <= c <= 'Z' || '0' <= c <= '9' || c == '_'
}

/// A unit is mentioned where it stands between two quotes, or as a whole word; and where it is not
/// found in the output at all, it is not mentioned.
pub proof fn lemma_units_are_mentioned(a: Seq<char>, c: char, unit: Seq<char>, d: char, b: Seq<char>)
    ensures
        c == '"' && d == '"' ==> wallet_output::mentions_unit(
            a.push(c) + unit + seq![d] + b,
            unit,
        ),
        c == '\'' && d == '\'' ==> wallet_output::mentions_unit(
            a.push(c) + unit + seq![d] + b,
            unit,
        ),
        (forall|i: int| 0 <= i < unit.len() ==> is_word_letter(#[trigger] unit[i]))
            && !is_word_letter(c) && !is_word_letter(d) ==> wallet_output::mentions_unit(
            a.push(c) + unit + seq![d] + b,
            unit,
        ) && wallet_output::mentions_unit(unit + seq![d] + b, unit) && wallet_output::mentions_unit(
            a.push(c) + unit,
            unit,
        ) && wallet_output::mentions_unit(unit, unit),
        wallet_output::mentions_unit(a, unit) ==> search::contains_text(a, unit),
{
    let s = a.push(c) + unit + seq![d] + b;
    let k = CharClass::NonWord;
    if c == d && (c == '"' || c == '\'') {
        let quoted = seq![c] + unit + seq![c];
        assert(s =~= a + quoted + b);
        texts::lemma_part_is_found(a, quoted, b);
    }
    if (forall|i: int| 0 <= i < unit.len() ==> is_word_letter(#[trigger] unit[i]))
        && !is_word_letter(c) && !is_word_letter(d) {
        assert(texts::none_of(unit, k)) by {
            assert forall|i: int| 0 <= i < unit.len() implies !k.holds(#[trigger] unit[i]) by {
                assert(is_word_letter(unit[i]));
            }
        }
        assert(s =~= a.push(c) + (unit.push(d) + b));
        assert(unit + seq![d] + b =~= unit.push(d) + b);
        texts::lemma_split_of(unit, d, b, k);
        let inner = text::split(unit.push(d) + b, k);
        assert(inner[0] == unit);
        assert(inner.contains(unit));
        lemma_pieces_behind(a, c, unit.push(d) + b, k);
        texts::lemma_split_append(a, c, unit, k);
        let with = text::split(a.push(c) + unit, k);
        assert(with.last() == unit);
        assert(with[with.len() - 1] == unit);
        assert(with.contains(unit));
        texts::lemma_split_single(unit, k);
        assert(text::split(unit, k)[0] == unit);
    }
    if wallet_output::mentions_unit(a, unit) {
        if text::split(a, k).contains(unit) {
            let i = choose|i: int|
                0 <= i < text::split(a, k).len() && text::split(a, k)[i] == unit;
            lemma_pieces_are_found(a, k, i);
        } else {
            let q = if search::contains_text(a, seq!['"'] + unit + seq!['"']) {
                '"'
            } else {
                '\''
            };
            let quoted = seq![q] + unit + seq![q];
            let i = choose|i: int| search::occurs_at(a, quoted, i);
            assert(a.subrange(i + 1, i + 1 + unit.len()) =~= unit) by {
                assert forall|j: int| 0 <= j < unit.len() implies a[i + 1 + j] == unit[j] by {
                    assert(a.subrange(i, i + quoted.len())[1 + j] == quoted[1 + j]);
                }
            }
            assert(search::occurs_at(a, unit, i + 1));
        }
    }
}

/// The pieces behind a separator are pieces of the whole.
proof fn lemma_pieces_behind(a: Seq<char>, c: char, b: Seq<char>, k: CharClass)
    requires
        k.holds(c),
    ensures
        forall|x: Seq<char>| #[trigger]
            text::split(b, k).contains(x) ==> text::split(a.push(c) + b, k).contains(x),
    decreases a.len(),
{
    text::lemma_position(a, k);
    let p = text::position(a, k) as int;
    let s = a.push(c) + b;
    let (first, sep, rest) = if p < a.len() {
        (a.take(p), a[p], a.skip(p + 1).push(c) + b)
    } else {
        (a, c, b)
    };
    assert(s =~= first.push(sep) + rest);
    assert(texts::none_of(first, k));
    texts::lemma_split_of(first, sep, rest, k);
    if p < a.len() {
        lemma_pieces_behind(a.skip(p + 1), c, b, k);
    }
    assert forall|x: Seq<char>| #[trigger] text::split(b, k).contains(x) implies text::split(
        s,
        k,
    ).contains(x) by {
        assert(text::split(rest, k).contains(x));
        let i = choose|i: int|
            0 <= i < text::split(rest, k).len() && text::split(rest, k)[i] == x;
        assert(text::split(s, k)[i + 1] == x);
    }
}

/// A piece of a text is found in it.
proof fn lemma_pieces_are_found(s: Seq<char>, k: CharClass, i: int)
    requires
        0 <= i < text::split(s, k).len(),
    ensures
        search::contains_text(s, text::split(s, k)[i]),
    decreases s.len(),
{
    text::lemma_position(s, k);
    let p = text::position(s, k) as int;
    let none: Seq<char> = seq![];
    let piece = text::split(s, k)[i];
    if p < s.len() {
        let rest = s.skip(p + 1);
        if i == 0 {
            texts::lemma_part_is_found(none, s.take(p), s.skip(p));
            assert(none + s.take(p) + s.skip(p) =~= s);
        } else {
            assert(piece == text::split(rest, k)[i - 1]);
            lemma_pieces_are_found(rest, k, i - 1);
            let j = choose|j: int| search::occurs_at(rest, piece, j);
            assert(s.subrange(p + 1 + j, p + 1 + j + piece.len()) =~= rest.subrange(
                j,
                j + piece.len(),
            ));
            assert(search::occurs_at(s, piece, p + 1 + j));
        }
    } else {
        texts::lemma_part_is_found(none, s, none);
        assert(none + s + none =~= s);
    }
}

/// Whether a text stands at `i` as a word of its own: no letter, digit or underscore touches it.
pub open spec fn stands_alone(s: Seq<char>, w: Seq<char>, i: int) -> bool {
    &&& search::occurs_at(s, w, i)
    &&& i > 0 ==> !is_word_letter(s[i - 1])
    &&& i + w.len() < s.len() ==> !is_word_letter(s[i + w.len()])
}

/// A unit is mentioned only where it stands alone: as a part of a longer word it is not.
pub proof fn lemma_parts_of_words_are_no_units(output: Seq<char>, unit: Seq<char>)
    requires
        wallet_output::mentions_unit(output, unit),
    ensures
        exists|i: int| #[trigger] stands_alone(output, unit, i),
{
    let (a, b) = (seq!['"'] + unit + seq!['"'], seq!['\''] + unit + seq!['\'']);
    if search::contains_text(output, a) {
        lemma_between_quotes(output, '"', unit);
    } else if search::contains_text(output, b) {
        lemma_between_quotes(output, '\'', unit);
    } else {
        let pieces = text::split(output, CharClass::NonWord);
        let n = choose|n: int| 0 <= n < pieces.len() && pieces[n] == unit;
        lemma_pieces_stand_alone(output, n);
    }
}

proof fn lemma_between_quotes(output: Seq<char>, q: char, unit: Seq<char>)
    requires
        q == '"' || q == '\'',
        search::contains_text(output, seq![q] + unit + seq![q]),
    ensures
        exists|i: int| #[trigger] stands_alone(output, unit, i),
{
    let quoted = seq![q] + unit + seq![q];
    let j = choose|j: int| search::occurs_at(output, quoted, j);
    let here = output.subrange(j, j + quoted.len());
    assert(here == quoted);
    assert(here[0] == q && here[quoted.len() - 1] == q);
    assert(output[j] == here[0]);
    assert(output[j + quoted.len() - 1] == here[quoted.len() - 1]);
    assert(output.subrange(j + 1, j + 1 + unit.len()) =~= unit) by {
        assert forall|k: int| 0 <= k < unit.len() implies output[j + 1 + k] == unit[k] by {
            assert(here[1 + k] == output[j + 1 + k]);
            assert(quoted[1 + k] == unit[k]);
        }
    }
    assert(stands_alone(output, unit, j + 1));
}

proof fn lemma_pieces_stand_alone(s: Seq<char>, n: int)
    requires
        0 <= n < text::split(s, CharClass::NonWord).len(),
    ensures
        exists|i: int| #[trigger]
            stands_alone(s, text::split(s, CharClass::NonWord)[n], i),
    decreases s.len(),
{
    let k = CharClass::NonWord;
    text::lemma_position(s, k);
    let p = text::position(s, k) as int;
    let piece = text::split(s, k)[n];
    if p < s.len() {
        assert(!is_word_letter(s[p]));
        let rest = s.skip(p + 1);
        if n == 0 {
            assert(s.subrange(0, p) =~= s.take(p));
            assert(stands_alone(s, piece, 0));
        } else {
            assert(piece == text::split(rest, k)[n - 1]);
            lemma_pieces_stand_alone(rest, n - 1);
            let i = choose|i: int| #[trigger] stands_alone(rest, piece, i);
            let at = p + 1 + i;
            assert(s.subrange(at, at + piece.len()) =~= rest.subrange(i, i + piece.len()));
            if i > 0 {
                assert(rest[i - 1] == s[at - 1]);
            }
            if i + piece.len() < rest.len() {
                assert(rest[i + piece.len()] == s[at + piece.len()]);
            }
            assert(stands_alone(s, piece, at));
        }
    } else {
        assert(s.subrange(0, s.len() as int) =~= s);
        assert(piece == s);
        assert(stands_alone(s, piece, 0));
    }
}

} // verus!
