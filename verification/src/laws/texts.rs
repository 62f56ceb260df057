//! Laws on text: trimming, splitting, searching and numbers.

use vstd::prelude::*;

use crate::number;
use crate::paths;
use crate::search;
use crate::text;
use crate::text::CharClass;

verus! {

/// The code points with the Unicode property `White_Space`.
pub open spec fn white_space_codes() -> Seq<int> {
    seq![
        0x9int,
        0xa,
        0xb,
        0xc,
        0xd,
        0x20,
        0x85,
        0xa0,
        0x1680,
        0x2000,
        0x2001,
        0x2002,
        0x2003,
        0x2004,
        0x2005,
        0x2006,
        0x2007,
        0x2008,
        0x2009,
        0x200a,
        0x2028,
        0x2029,
        0x202f,
        0x205f,
        0x3000,
    ]
}

/// White space is what Unicode lists as such, and nothing else.
pub proof fn lemma_white_space(c: char)
    ensures
        text::is_whitespace(c) <==> white_space_codes().contains(c as int),
{
    let w = white_space_codes();
    let n = c as int;
    assert(w[0] == 9 && w[1] == 10 && w[2] == 11 && w[3] == 12 && w[4] == 13 && w[5] == 32);
    assert(w[6] == 0x85 && w[7] == 0xa0 && w[8] == 0x1680 && w[9] == 0x2000 && w[10] == 0x2001);
    assert(w[11] == 0x2002 && w[12] == 0x2003 && w[13] == 0x2004 && w[14] == 0x2005);
    assert(w[15] == 0x2006 && w[16] == 0x2007 && w[17] == 0x2008 && w[18] == 0x2009);
    assert(w[19] == 0x200a && w[20] == 0x2028 && w[21] == 0x2029 && w[22] == 0x202f);
    assert(w[23] == 0x205f && w[24] == 0x3000);
    if w.contains(n) {
        let i = choose|i: int| 0 <= i < w.len() && w[i] == n;
        assert(0 <= i < 25);
    }
}

/// Whether every character is white space.
pub open spec fn is_white(s: Seq<char>) -> bool {
    forall|i: int| 0 <= i < s.len() ==> text::is_whitespace(#[trigger] s[i])
}

/// Whether no character is white space.
pub open spec fn has_no_white(s: Seq<char>) -> bool {
    forall|i: int| 0 <= i < s.len() ==> !text::is_whitespace(#[trigger] s[i])
}

// ---------------------------------------------------------------------------------------------
// Trimming
// ---------------------------------------------------------------------------------------------

/// Whether every character belongs to the class.
pub open spec fn all_of(s: Seq<char>, k: CharClass) -> bool {
    forall|i: int| 0 <= i < s.len() ==> k.holds(#[trigger] s[i])
}

/// Whether no character belongs to the class.
pub open spec fn none_of(s: Seq<char>, k: CharClass) -> bool {
    forall|i: int| 0 <= i < s.len() ==> !k.holds(#[trigger] s[i])
}

/// Trimming the end takes off what is put behind.
pub proof fn lemma_trim_end_of(s: Seq<char>, tail: Seq<char>, k: CharClass)
    requires
        all_of(tail, k),
        s.len() > 0 ==> !k.holds(s.last()),
    ensures
        text::trim_end(s + tail, k) == s,
    decreases tail.len(),
{
    if tail.len() > 0 {
        assert((s + tail).last() == tail[tail.len() - 1]);
        assert((s + tail).drop_last() =~= s + tail.drop_last());
        lemma_trim_end_of(s, tail.drop_last(), k);
    } else {
        assert(s + tail =~= s);
    }
}

/// Trimming the start takes off what is put in front.
pub proof fn lemma_trim_start_of(head: Seq<char>, s: Seq<char>, k: CharClass)
    requires
        all_of(head, k),
        s.len() > 0 ==> !k.holds(s[0]),
    ensures
        text::trim_start(head + s, k) == s,
    decreases head.len(),
{
    if head.len() > 0 {
        assert((head + s)[0] == head[0]);
        assert((head + s).drop_first() =~= head.drop_first() + s);
        lemma_trim_start_of(head.drop_first(), s, k);
    } else {
        assert(head + s =~= s);
    }
}

/// Trimming takes off what is put around.
pub proof fn lemma_trim_of(head: Seq<char>, s: Seq<char>, tail: Seq<char>, k: CharClass)
    requires
        all_of(head, k),
        all_of(tail, k),
        s.len() > 0 ==> !k.holds(s[0]) && !k.holds(s.last()),
    ensures
        text::trim_class(head + s + tail, k) == s,
{
    if s.len() > 0 {
        assert((head + s).last() == s.last());
        lemma_trim_end_of(head + s, tail, k);
        lemma_trim_start_of(head, s, k);
    } else {
        let whole = head + s + tail;
        let none: Seq<char> = seq![];
        assert forall|i: int| 0 <= i < whole.len() implies k.holds(#[trigger] whole[i]) by {
            if i < head.len() {
                assert(whole[i] == head[i]);
            } else {
                assert(whole[i] == tail[i - head.len()]);
            }
        }
        assert(none + whole =~= whole);
        lemma_trim_end_of(none, whole, k);
        assert(text::trim_class(whole, k) =~= s);
    }
}

/// White space around a text is trimmed, and nothing else: what stands between the white space comes
/// out as it is.
pub proof fn lemma_trim_takes_white_space_off(head: Seq<char>, s: Seq<char>, tail: Seq<char>)
    requires
        is_white(head),
        is_white(tail),
        s.len() > 0 ==> !text::is_whitespace(s[0]) && !text::is_whitespace(s.last()),
    ensures
        text::trim_spec(head + s + tail) == s,
{
    lemma_trim_of(head, s, tail, CharClass::Whitespace);
}

/// A text without white space at its ends is not changed by trimming.
pub proof fn lemma_trim_keeps(s: Seq<char>)
    requires
        s.len() > 0 ==> !text::is_whitespace(s[0]) && !text::is_whitespace(s.last()),
    ensures
        text::trim_spec(s) == s,
{
    let none: Seq<char> = seq![];
    lemma_trim_takes_white_space_off(none, s, none);
    assert(none + s + none =~= s);
}

// ---------------------------------------------------------------------------------------------
// Splitting
// ---------------------------------------------------------------------------------------------

/// A text is split at the first character of the class, and the rest is split in turn.
pub proof fn lemma_split_of(a: Seq<char>, c: char, b: Seq<char>, k: CharClass)
    requires
        none_of(a, k),
        k.holds(c),
    ensures
        text::split(a.push(c) + b, k) == seq![a] + text::split(b, k),
{
    let s = a.push(c) + b;
    assert forall|i: int| 0 <= i < a.len() implies !k.holds(#[trigger] s[i]) by {
        assert(s[i] == a[i]);
    }
    text::lemma_position_is(s, k, a.len() as int);
    assert(s.take(a.len() as int) =~= a);
    assert(s.skip((a.len() + 1) as int) =~= b);
}

/// A text without a character of the class is one piece.
pub proof fn lemma_split_single(a: Seq<char>, k: CharClass)
    requires
        none_of(a, k),
    ensures
        text::split(a, k) == seq![a],
{
    text::lemma_position_is(a, k, a.len() as int);
}

/// The words of a text: white space in front of it does not count, a word that is followed by white
/// space is the first one, and a text without white space is a word itself.
pub proof fn lemma_words(w: Seq<char>, c: char, rest: Seq<char>)
    requires
        has_no_white(w),
        text::is_whitespace(c),
    ensures
        w.len() > 0 ==> text::words(w.push(c) + rest) == seq![w] + text::words(rest),
        w.len() == 0 ==> text::words(w.push(c) + rest) == text::words(rest),
        w.len() > 0 ==> text::words(w) == seq![w],
        w.len() == 0 ==> text::words(w) == Seq::<Seq<char>>::empty(),
{
    let k = CharClass::Whitespace;
    let keep = |x: Seq<char>| x.len() > 0;
    assert(none_of(w, k));
    lemma_split_of(w, c, rest, k);
    lemma_split_single(w, k);
    Seq::filter_distributes_over_add(seq![w], text::split(rest, k), keep);
    lemma_filter_one(w, keep);
    if w.len() == 0 {
        assert(seq![w].filter(keep) + text::split(rest, k).filter(keep) =~= text::words(rest));
    }
}

/// Filtering a list of one item keeps it or not.
pub proof fn lemma_filter_one<A>(x: A, keep: spec_fn(A) -> bool)
    ensures
        keep(x) ==> seq![x].filter(keep) == seq![x],
        !keep(x) ==> seq![x].filter(keep) == Seq::<A>::empty(),
{
    reveal(Seq::filter);
    let one = seq![x];
    assert(one.drop_last() =~= Seq::<A>::empty());
    assert(one.drop_last().filter(keep) =~= Seq::<A>::empty());
    assert(one.last() == x);
    assert(Seq::<A>::empty().push(x) =~= one);
}

/// The entries of a list: those before a comma, and then those behind it. A text without a comma is
/// one entry, without the white space around it, or none where it is blank.
pub proof fn lemma_csv_entries_of(a: Seq<char>, b: Seq<char>)
    requires
        !a.contains(','),
    ensures
        text::csv_entries(a.push(',') + b) == text::csv_entries(a) + text::csv_entries(b),
        text::trim_spec(a).len() > 0 ==> text::csv_entries(a) == seq![text::trim_spec(a)],
        text::trim_spec(a).len() == 0 ==> text::csv_entries(a) == Seq::<Seq<char>>::empty(),
{
    let k = CharClass::Comma;
    let tr = |e: Seq<char>| text::trim_spec(e);
    let keep = |e: Seq<char>| e.len() > 0;
    assert forall|i: int| 0 <= i < a.len() implies !k.holds(#[trigger] a[i]) by {
        if a[i] == ',' {
            assert(a.contains(','));
        }
    }
    lemma_split_of(a, ',', b, k);
    lemma_split_single(a, k);
    let one = seq![a].map_values(tr);
    assert(one =~= seq![text::trim_spec(a)]);
    assert((seq![a] + text::split(b, k)).map_values(tr) =~= one + text::split(b, k).map_values(tr));
    Seq::filter_distributes_over_add(one, text::split(b, k).map_values(tr), keep);
    lemma_filter_one(text::trim_spec(a), keep);
}

/// The lines of a text: what stands before a line feed, without a carriage return at its end, and
/// then the lines behind it. A text without a line feed is one line, or none where it is empty.
pub proof fn lemma_lines_of(a: Seq<char>, b: Seq<char>)
    requires
        !a.contains('\n'),
    ensures
        a.len() > 0 && a.last() == '\r' ==> text::lines(a.push('\n') + b) == seq![a.drop_last()]
            + text::lines(b),
        a.len() == 0 || a.last() != '\r' ==> text::lines(a.push('\n') + b) == seq![a]
            + text::lines(b),
        a.len() > 0 ==> text::lines(a) == seq![a],
        a.len() == 0 ==> text::lines(a) == Seq::<Seq<char>>::empty(),
{
    let k = CharClass::Newline;
    let s = a.push('\n') + b;
    assert forall|i: int| 0 <= i < a.len() implies !k.holds(#[trigger] a[i]) by {
        if a[i] == '\n' {
            assert(a.contains('\n'));
        }
    }
    assert forall|i: int| 0 <= i < a.len() implies !k.holds(#[trigger] s[i]) by {
        assert(s[i] == a[i]);
    }
    text::lemma_position_is(s, k, a.len() as int);
    text::lemma_position_is(a, k, a.len() as int);
    assert(s.take(a.len() as int) =~= a);
    assert(s.skip((a.len() + 1) as int) =~= b);
}

/// Texts that are joined are found again by taking the separator out: none is lost, and none is
/// changed.
pub proof fn lemma_joined_texts_are_found(parts: Seq<Seq<char>>, sep: char)
    requires
        parts.len() > 0,
        sep == ',' || sep == '.' || sep == ':',
        forall|i: int| 0 <= i < parts.len() ==> !(#[trigger] parts[i]).contains(sep),
    ensures
        text::joined(parts, seq![sep]).len() >= parts.len() - 1,
        sep == ',' ==> text::split(text::joined(parts, seq![sep]), CharClass::Comma) == parts,
        sep == '.' ==> text::split(text::joined(parts, seq![sep]), CharClass::Dot) == parts,
        sep == ':' ==> text::split(text::joined(parts, seq![sep]), CharClass::Colon) == parts,
    decreases parts.len(),
{
    let k = if sep == ',' {
        CharClass::Comma
    } else if sep == '.' {
        CharClass::Dot
    } else {
        CharClass::Colon
    };
    if parts.len() == 1 {
        assert(parts =~= seq![parts[0]]);
        if k.holds(sep) {
            lemma_without(parts[0], sep, k);
            lemma_split_single(parts[0], k);
        }
    } else {
        let front = parts.drop_last();
        assert forall|i: int| 0 <= i < front.len() implies !(#[trigger] front[i]).contains(sep) by {
            assert(front[i] == parts[i]);
        }
        lemma_joined_texts_are_found(front, sep);
        let j = text::joined(front, seq![sep]);
        let last = parts[parts.len() - 1];
        assert(last == parts.last());
        assert(text::joined(parts, seq![sep]) =~= j.push(sep) + last);
        if k.holds(sep) {
            lemma_without(last, sep, k);
            lemma_split_append(j, sep, last, k);
            assert(front.push(last) =~= parts);
        }
    }
}

proof fn lemma_without(s: Seq<char>, c: char, k: CharClass)
    requires
        !s.contains(c),
        k is Comma && c == ',' || k is Dot && c == '.' || k is Colon && c == ':',
    ensures
        none_of(s, k),
{
    assert forall|i: int| 0 <= i < s.len() implies !k.holds(#[trigger] s[i]) by {
        if s[i] == c {
            assert(s.contains(c));
        }
    }
}

/// A piece that is put behind a text is its last piece.
pub proof fn lemma_split_append(s: Seq<char>, c: char, last: Seq<char>, k: CharClass)
    requires
        k.holds(c),
        none_of(last, k),
    ensures
        text::split(s.push(c) + last, k) == text::split(s, k).push(last),
    decreases s.len(),
{
    text::lemma_position(s, k);
    let p = text::position(s, k) as int;
    let whole = s.push(c) + last;
    if p < s.len() {
        let a = s.take(p);
        let rest = s.skip(p + 1);
        assert(none_of(a, k));
        assert(whole =~= a.push(s[p]) + (rest.push(c) + last));
        lemma_split_of(a, s[p], rest.push(c) + last, k);
        lemma_split_append(rest, c, last, k);
        assert(seq![a] + text::split(rest, k).push(last) =~= (seq![a] + text::split(rest, k)).push(
            last,
        ));
    } else {
        assert(s.take(p) =~= s);
        assert(none_of(s, k));
        lemma_split_of(s, c, last, k);
        lemma_split_single(s, k);
        lemma_split_single(last, k);
        assert(seq![s] + seq![last] =~= seq![s].push(last));
    }
}

// ---------------------------------------------------------------------------------------------
// Searching
// ---------------------------------------------------------------------------------------------

/// A text is found in another exactly where the other is made of something, the text, and something.
pub proof fn lemma_texts_are_found(h: Seq<char>, n: Seq<char>)
    ensures
        search::contains_text(h, n) <==> exists|a: Seq<char>, b: Seq<char>| h == #[trigger] (a + n
            + b),
{
    if search::contains_text(h, n) {
        let i = choose|i: int| search::occurs_at(h, n, i);
        let a = h.take(i);
        let b = h.skip(i + n.len());
        assert(h =~= a + n + b);
    }
    if exists|a: Seq<char>, b: Seq<char>| h == #[trigger] (a + n + b) {
        let (a, b) = choose|a: Seq<char>, b: Seq<char>| h == #[trigger] (a + n + b);
        lemma_part_is_found(a, n, b);
    }
}

/// What a text is made of is found in it.
pub proof fn lemma_part_is_found(a: Seq<char>, n: Seq<char>, b: Seq<char>)
    ensures
        search::contains_text(a + n + b, n),
        search::occurs_at(a + n + b, n, a.len() as int),
{
    let h = a + n + b;
    assert(h.subrange(a.len() as int, (a.len() + n.len()) as int) =~= n);
    assert(search::occurs_at(h, n, a.len() as int));
}

/// Small letters: a capital letter from `A` to `Z` becomes the letter at the same place from `a` to
/// `z`, and every other character stays as it is.
pub proof fn lemma_lowercase(s: Seq<char>, i: int)
    requires
        0 <= i < s.len(),
    ensures
        search::lowercase(s).len() == s.len(),
        'A' <= s[i] <= 'Z' ==> search::lowercase(s)[i] as int - 'a' as int == s[i] as int
            - 'A' as int,
        !('A' <= s[i] <= 'Z') ==> search::lowercase(s)[i] == s[i],
{
}

/// The order of texts: the first character that differs decides, and a text comes before whatever
/// continues it.
pub proof fn lemma_text_order(p: Seq<char>, a: Seq<char>, b: Seq<char>)
    ensures
        a.len() > 0 && b.len() > 0 && a[0] < b[0] ==> search::text_less(p + a, p + b)
            && !search::text_less(p + b, p + a),
        b.len() > 0 ==> search::text_less(p, p + b) && !search::text_less(p + b, p),
        !search::text_less(p, p),
    decreases p.len(),
{
    if p.len() > 0 {
        lemma_text_order(p.drop_first(), a, b);
        assert((p + a).drop_first() =~= p.drop_first() + a);
        assert((p + b).drop_first() =~= p.drop_first() + b);
        assert((p + a)[0] == p[0] && (p + b)[0] == p[0]);
    } else {
        assert(p + a =~= a);
        assert(p + b =~= b);
    }
}

// ---------------------------------------------------------------------------------------------
// Numbers and paths
// ---------------------------------------------------------------------------------------------

/// What digits are worth: a digit what it shows, and digits in front of others ten times as much for
/// each of those.
pub proof fn lemma_digits_are_decimal(a: Seq<char>, b: Seq<char>)
    requires
        forall|i: int| 0 <= i < a.len() ==> '0' <= #[trigger] a[i] <= '9',
        forall|i: int| 0 <= i < b.len() ==> '0' <= #[trigger] b[i] <= '9',
    ensures
        number::digits_value(a + b) == number::digits_value(a) * vstd::arithmetic::power::pow(
            10,
            b.len(),
        ) + number::digits_value(b),
        a.len() == 1 ==> number::digits_value(a) == a[0] as int - '0' as int,
        a.len() == 0 ==> number::digits_value(a) == 0,
    decreases b.len(),
{
    vstd::arithmetic::power::lemma_pow0(10);
    if a.len() == 1 {
        assert(a.drop_last() =~= seq![]);
        assert(number::digits_value(a.drop_last()) == 0);
    }
    if b.len() > 0 {
        let t = b.drop_last();
        lemma_digits_are_decimal(a, t);
        assert((a + b).drop_last() =~= a + t);
        assert((a + b).last() == b[b.len() - 1]);
        let n = number::digits_value(a) as int;
        let m = number::digits_value(t) as int;
        let p = vstd::arithmetic::power::pow(10, t.len());
        vstd::arithmetic::power::lemma_pow_adds(10, t.len(), 1);
        vstd::arithmetic::power::lemma_pow1(10);
        assert((n * p + m) * 10 == n * (p * 10) + m * 10) by (nonlinear_arith);
        assert(number::digits_value(t) * 10 + (b.last() as int - '0' as int) >= 0);
    } else {
        assert(a + b =~= a);
    }
}

/// What is read as a number: decimal digits, at least one, and a plus sign in front of them does not
/// matter. Anything else is not a number.
pub proof fn lemma_numbers_are_read(s: Seq<char>, max: nat)
    ensures
        number::parse_up_to(s, max) is Some ==> s.len() > 0 && forall|i: int|
            0 <= i < s.len() ==> ('0' <= #[trigger] s[i] <= '9' || (i == 0 && s[i] == '+' && s.len()
                > 1)),
        number::parse_up_to(s, max) matches Some(n) ==> n <= max,
        s.len() > 0 && (forall|i: int| 0 <= i < s.len() ==> '0' <= #[trigger] s[i] <= '9') ==> {
            &&& number::parse_up_to(seq!['+'] + s, max) == number::parse_up_to(s, max)
            &&& number::digits_value(s) <= max ==> number::parse_up_to(s, max) == Some(
                number::digits_value(s),
            )
            &&& number::digits_value(s) > max ==> number::parse_up_to(s, max) is None
        },
{
    let d = number::unsigned_digits(s);
    if number::parse_up_to(s, max) is Some {
        assert(search::all_digits(d));
        assert forall|i: int| 0 <= i < s.len() implies ('0' <= #[trigger] s[i] <= '9' || (i == 0
            && s[i] == '+' && s.len() > 1)) by {
            if s[0] == '+' {
                if i > 0 {
                    assert(text::is_digit(d[i - 1]));
                    assert(s[i] == d[i - 1]);
                }
            } else {
                assert(text::is_digit(d[i]));
            }
        }
    }
    if s.len() > 0 && (forall|i: int| 0 <= i < s.len() ==> '0' <= #[trigger] s[i] <= '9') {
        assert('0' <= s[0] <= '9');
        assert((seq!['+'] + s).drop_first() =~= s);
        assert((seq!['+'] + s)[0] == '+');
        assert(search::all_digits(s));
    }
}

/// A number that is written in decimal is made of decimal digits, the first of which is no zero unless
/// the number is zero, and it is read back as the number.
pub proof fn lemma_decimals_read_back(n: nat, max: nat)
    ensures
        n <= max ==> number::parse_up_to(number::decimal(n), max) == Some(n),
        number::decimal(n).len() > 0,
        forall|i: int|
            0 <= i < number::decimal(n).len() ==> '0' <= #[trigger] number::decimal(n)[i] <= '9',
        n > 0 ==> number::decimal(n)[0] != '0',
        n == 0 ==> number::decimal(n) == seq!['0'],
    decreases n,
{
    number::lemma_decimal_reads_back(n);
    number::lemma_decimal_digits(n);
    if n >= 10 {
        lemma_decimals_read_back(n / 10, max);
        assert(number::decimal(n)[0] == number::decimal(n / 10)[0]);
    }
    assert forall|i: int| 0 <= i < number::decimal(n).len() implies '0' <= #[trigger] number::decimal(
        n,
    )[i] <= '9' by {
        assert(text::is_digit(number::decimal(n)[i]));
    }
}

/// The hexadecimal digits.
pub open spec fn hex_digits() -> Seq<char> {
    seq!['0', '1', '2', '3', '4', '5', '6', '7', '8', '9', 'a', 'b', 'c', 'd', 'e', 'f']
}

/// A number in hexadecimal: one below sixteen is its digit, and a larger one is written as its
/// sixteenth with the digit of the rest behind it.
pub proof fn lemma_hexadecimals(n: nat, d: nat)
    requires
        d < 16,
    ensures
        number::hexadecimal(d) == seq![hex_digits()[d as int]],
        n > 0 ==> number::hexadecimal(16 * n + d) == number::hexadecimal(n) + number::hexadecimal(
            d,
        ),
{
    let all = hex_digits();
    assert(all[0] == '0' && all[1] == '1' && all[2] == '2' && all[3] == '3' && all[4] == '4');
    assert(all[5] == '5' && all[6] == '6' && all[7] == '7' && all[8] == '8' && all[9] == '9');
    assert(all[10] == 'a' && all[11] == 'b' && all[12] == 'c' && all[13] == 'd');
    assert(all[14] == 'e' && all[15] == 'f');
    assert(number::hex_char(d) == all[d as int]);
    if n > 0 {
        let m = 16 * n + d;
        assert(m / 16 == n && m % 16 == d);
        assert(number::hexadecimal(n).push(number::hex_char(d)) =~= number::hexadecimal(n)
            + number::hexadecimal(d));
    }
}

/// A path below a directory begins with the directory and ends with the name, and one slash stands
/// between the two: that of the directory, or one more where it has none.
pub proof fn lemma_paths_are_joined(base: Seq<char>, name: Seq<char>)
    ensures
        base.is_prefix_of(paths::joined_path(base, name)),
        name.is_suffix_of(paths::joined_path(base, name)),
        base.len() > 0 ==> ({
            let p = paths::joined_path(base, name);
            &&& p[p.len() - name.len() - 1] == '/'
            &&& p.len() == base.len() + name.len() + if base.last() == '/' {
                0int
            } else {
                1int
            }
        }),
        base.len() == 0 ==> paths::joined_path(base, name) == name,
{
    let p = paths::joined_path(base, name);
    assert(base =~= p.take(base.len() as int));
    assert(name =~= p.skip(p.len() - name.len()));
    if base.len() == 0 {
        assert(base + name =~= name);
    }
}

} // verus!
