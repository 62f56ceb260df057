//! Text at the level of characters: classes of characters, trimming and splitting.
//!
//! Every function here is stated over the character sequence of its arguments, and the other
//! modules state their own contracts with the spec functions of this one.

use vstd::prelude::*;

verus! {

/// `String::push` appends one character to the end of the string.
pub assume_specification[ String::push ](s: &mut String, c: char)
    ensures
        final(s)@ == old(s)@.push(c),
;

/// Sets of characters that the parsers look for.
#[derive(Clone, Copy)]
pub enum CharClass {
    /// The line feed.
    Newline,
    /// The comma, between the entries of a list.
    Comma,
    /// The colon, between the fields of an entry.
    Colon,
    /// The full stop, between the octets of an address.
    Dot,
    /// Characters with the Unicode property `White_Space`.
    Whitespace,
    /// Everything but the ASCII decimal digits.
    NonDigit,
    /// Everything but ASCII letters, ASCII digits and the underscore.
    NonWord,
    /// White space, quotes, commas and brackets: what ends a URL in running text.
    UrlEnd,
    /// Punctuation that may trail a URL without belonging to it.
    UrlTail,
    /// Quotes and separators that may surround a printed token.
    TokenFrame,
}

/// Whether `c` has the Unicode property `White_Space`.
pub open spec fn is_whitespace(c: char) -> bool {
    let n = c as int;
    ||| 0x09 <= n <= 0x0d
    ||| n == 0x20
    ||| n == 0x85
    ||| n == 0xa0
    ||| n == 0x1680
    ||| 0x2000 <= n <= 0x200a
    ||| n == 0x2028
    ||| n == 0x2029
    ||| n == 0x202f
    ||| n == 0x205f
    ||| n == 0x3000
}

/// Whether `c` is one of the ASCII digits `0` to `9`.
pub open spec fn is_digit(c: char) -> bool {
    '0' <= c <= '9'
}

/// Whether `c` is an ASCII hexadecimal digit of either case.
pub open spec fn is_hex_digit(c: char) -> bool {
    is_digit(c) || 'a' <= c <= 'f' || 'A' <= c <= 'F'
}

/// Whether `c` is an ASCII letter, an ASCII digit or the underscore.
pub open spec fn is_word_char(c: char) -> bool {
    is_digit(c) || 'a' <= c <= 'z' || 'A' <= c <= 'Z' || c == '_'
}

/// `c` with an ASCII capital letter replaced by its small letter.
pub open spec fn lower(c: char) -> char {
    if 'A' <= c <= 'Z' {
        ((c as int) + 32) as char
    } else {
        c
    }
}

impl CharClass {
    /// Whether `c` belongs to the class.
    pub open spec fn holds(self, c: char) -> bool {
        match self {
            CharClass::Newline => c == '\n',
            CharClass::Comma => c == ',',
            CharClass::Colon => c == ':',
            CharClass::Dot => c == '.',
            CharClass::Whitespace => is_whitespace(c),
            CharClass::NonDigit => !is_digit(c),
            CharClass::NonWord => !is_word_char(c),
            CharClass::UrlEnd => is_whitespace(c) || c == '"' || c == '\'' || c == ',' || c == ')'
                || c == ']' || c == '}' || c == '(' || c == '[' || c == '{',
            CharClass::UrlTail => c == '.' || c == ';',
            CharClass::TokenFrame => c == '"' || c == '\'' || c == ',' || c == ';',
        }
    }

    /// Tests whether `c` belongs to the class.
    pub fn test(self, c: char) -> (r: bool)
        ensures
            r == self.holds(c),
    {
        match self {
            CharClass::Newline => c == '\n',
            CharClass::Comma => c == ',',
            CharClass::Colon => c == ':',
            CharClass::Dot => c == '.',
            CharClass::Whitespace => test_whitespace(c),
            CharClass::NonDigit => !test_digit(c),
            CharClass::NonWord => !test_word_char(c),
            CharClass::UrlEnd => test_whitespace(c) || c == '"' || c == '\'' || c == ','
                || c == ')' || c == ']' || c == '}' || c == '(' || c == '[' || c == '{',
            CharClass::UrlTail => c == '.' || c == ';',
            CharClass::TokenFrame => c == '"' || c == '\'' || c == ',' || c == ';',
        }
    }
}

/// Tests for Unicode white space.
pub fn test_whitespace(c: char) -> (r: bool)
    ensures
        r == is_whitespace(c),
{
    let n: u32 = c as u32;
    (0x09 <= n && n <= 0x0d) || n == 0x20 || n == 0x85 || n == 0xa0 || n == 0x1680 || (0x2000 <= n
        && n <= 0x200a) || n == 0x2028 || n == 0x2029 || n == 0x202f || n == 0x205f || n == 0x3000
}

/// Tests for an ASCII decimal digit.
pub fn test_digit(c: char) -> (r: bool)
    ensures
        r == is_digit(c),
{
    '0' <= c && c <= '9'
}

/// Tests for an ASCII hexadecimal digit.
pub fn test_hex_digit(c: char) -> (r: bool)
    ensures
        r == is_hex_digit(c),
{
    test_digit(c) || ('a' <= c && c <= 'f') || ('A' <= c && c <= 'F')
}

/// Tests for an ASCII letter, digit or underscore.
pub fn test_word_char(c: char) -> (r: bool)
    ensures
        r == is_word_char(c),
{
    test_digit(c) || ('a' <= c && c <= 'z') || ('A' <= c && c <= 'Z') || c == '_'
}

/// The characters of `s` as a vector.
pub fn chars_of(s: &str) -> (v: Vec<char>)
    ensures
        v@ == s@,
{
    let mut v: Vec<char> = Vec::new();
    for c in it: s.chars()
        invariant
            it.seq() == s@,
            v@ == s@.take(it.index() as int),
    {
        v.push(c);
    }
    v
}

/// The characters of `v` from `from` up to `to` as a string.
pub fn text_of(v: &Vec<char>, from: usize, to: usize) -> (s: String)
    requires
        from <= to <= v@.len(),
    ensures
        s@ == v@.subrange(from as int, to as int),
{
    let mut s: String = String::new();
    let mut i: usize = from;
    while i < to
        invariant
            from <= i <= to <= v@.len(),
            s@ == v@.subrange(from as int, i as int),
        decreases to - i,
    {
        s.push(v[i]);
        i = i + 1;
    }
    s
}

/// Whether two texts hold the same characters.
pub fn same_text(a: &str, b: &str) -> (r: bool)
    ensures
        r == (a@ == b@),
{
    let x = chars_of(a);
    let y = chars_of(b);
    same_chars(&x, &y)
}

fn same_chars(x: &Vec<char>, y: &Vec<char>) -> (r: bool)
    ensures
        r == (x@ == y@),
{
    if x.len() != y.len() {
        return false;
    }
    let mut i: usize = 0;
    while i < x.len()
        invariant
            i <= x@.len() == y@.len(),
            forall|j: int| 0 <= j < i ==> x@[j] == y@[j],
        decreases x.len() - i,
    {
        if x[i] != y[i] {
            return false;
        }
        i = i + 1;
    }
    assert(x@ =~= y@);
    true
}

// ---------------------------------------------------------------------------------------------
// Trimming
// ---------------------------------------------------------------------------------------------

/// `s` without its leading characters of class `k`.
pub open spec fn trim_start(s: Seq<char>, k: CharClass) -> Seq<char>
    decreases s.len(),
{
    if s.len() > 0 && k.holds(s[0]) {
        trim_start(s.drop_first(), k)
    } else {
        s
    }
}

/// `s` without its trailing characters of class `k`.
pub open spec fn trim_end(s: Seq<char>, k: CharClass) -> Seq<char>
    decreases s.len(),
{
    if s.len() > 0 && k.holds(s.last()) {
        trim_end(s.drop_last(), k)
    } else {
        s
    }
}

/// `s` without the characters of class `k` at either end.
pub open spec fn trim_class(s: Seq<char>, k: CharClass) -> Seq<char> {
    trim_start(trim_end(s, k), k)
}

/// `s` without white space at either end.
pub open spec fn trim_spec(s: Seq<char>) -> Seq<char> {
    trim_class(s, CharClass::Whitespace)
}

/// Trims the characters of class `k` from both ends.
pub fn trim_matches(s: &str, k: CharClass) -> (r: String)
    ensures
        r@ == trim_class(s@, k),
{
    let v = chars_of(s);
    let mut to: usize = v.len();
    assert(s@.subrange(0, to as int) =~= s@);
    while to > 0 && k.test(v[to - 1])
        invariant
            to <= v@.len(),
            v@ == s@,
            trim_end(s@, k) == trim_end(s@.subrange(0, to as int), k),
        decreases to,
    {
        assert(s@.subrange(0, to as int).drop_last() =~= s@.subrange(0, to - 1));
        to = to - 1;
    }
    assert(trim_end(s@, k) == s@.subrange(0, to as int));
    let mut from: usize = 0;
    assert(s@.subrange(0, to as int).subrange(0, to as int) =~= s@.subrange(0, to as int));
    while from < to && k.test(v[from])
        invariant
            from <= to <= v@.len(),
            v@ == s@,
            trim_class(s@, k) == trim_start(s@.subrange(from as int, to as int), k),
        decreases to - from,
    {
        assert(s@.subrange(from as int, to as int).drop_first() =~= s@.subrange(
            from + 1,
            to as int,
        ));
        from = from + 1;
    }
    assert(trim_class(s@, k) == s@.subrange(from as int, to as int));
    text_of(&v, from, to)
}

/// Trims the characters of class `k` from the end.
pub fn trim_end_matches(s: &str, k: CharClass) -> (r: String)
    ensures
        r@ == trim_end(s@, k),
{
    let v = chars_of(s);
    let mut to: usize = v.len();
    assert(s@.subrange(0, to as int) =~= s@);
    while to > 0 && k.test(v[to - 1])
        invariant
            to <= v@.len(),
            v@ == s@,
            trim_end(s@, k) == trim_end(s@.subrange(0, to as int), k),
        decreases to,
    {
        assert(s@.subrange(0, to as int).drop_last() =~= s@.subrange(0, to - 1));
        to = to - 1;
    }
    text_of(&v, 0, to)
}

/// Trims white space from both ends.
pub fn trim(s: &str) -> (r: String)
    ensures
        r@ == trim_spec(s@),
{
    trim_matches(s, CharClass::Whitespace)
}

/// Trimming is done once: the result has nothing left to trim.
pub proof fn lemma_trim_idempotent(s: Seq<char>)
    ensures
        trim_spec(trim_spec(s)) == trim_spec(s),
{
    let k = CharClass::Whitespace;
    lemma_trim_end_stops(s, k);
    let e = trim_end(s, k);
    lemma_trim_start_stops(e, k);
    let t = trim_start(e, k);
    if t.len() > 0 {
        assert(t.last() == e.last());
        assert(trim_end(t, k) == t);
        assert(trim_start(t, k) == t);
    }
}

proof fn lemma_trim_end_stops(s: Seq<char>, k: CharClass)
    ensures
        trim_end(s, k).len() > 0 ==> !k.holds(trim_end(s, k).last()),
        trim_end(s, k).len() <= s.len(),
        trim_end(s, k) == s.take(trim_end(s, k).len() as int),
    decreases s.len(),
{
    if s.len() > 0 && k.holds(s.last()) {
        lemma_trim_end_stops(s.drop_last(), k);
        assert(s.drop_last().take(trim_end(s, k).len() as int) =~= s.take(
            trim_end(s, k).len() as int,
        ));
    } else {
        assert(s.take(s.len() as int) =~= s);
    }
}

proof fn lemma_trim_start_stops(s: Seq<char>, k: CharClass)
    ensures
        trim_start(s, k).len() > 0 ==> !k.holds(trim_start(s, k)[0]),
        trim_start(s, k).len() <= s.len(),
        trim_start(s, k) == s.skip(s.len() - trim_start(s, k).len()),
    decreases s.len(),
{
    if s.len() > 0 && k.holds(s[0]) {
        lemma_trim_start_stops(s.drop_first(), k);
        let n = trim_start(s, k).len();
        assert(s.drop_first().skip(s.drop_first().len() - n) =~= s.skip(s.len() - n));
    } else {
        assert(s.skip(0) =~= s);
    }
}

// ---------------------------------------------------------------------------------------------
// Splitting
// ---------------------------------------------------------------------------------------------

/// How many characters of `s` stand before the first one of class `k`.
pub open spec fn position(s: Seq<char>, k: CharClass) -> nat
    decreases s.len(),
{
    if s.len() == 0 || k.holds(s[0]) {
        0
    } else {
        1 + position(s.drop_first(), k)
    }
}

/// The pieces of `s` between the characters of class `k`, empty ones included.
pub open spec fn split(s: Seq<char>, k: CharClass) -> Seq<Seq<char>>
    decreases s.len(),
{
    let p = position(s, k) as int;
    if p < s.len() {
        seq![s.take(p)] + split(s.skip(p + 1), k)
    } else {
        seq![s]
    }
}

/// The pieces of `s` between runs of white space.
pub open spec fn words(s: Seq<char>) -> Seq<Seq<char>> {
    split(s, CharClass::Whitespace).filter(|w: Seq<char>| w.len() > 0)
}

/// A line without the carriage return that precedes its line feed.
pub open spec fn without_cr(line: Seq<char>) -> Seq<char> {
    if line.len() > 0 && line.last() == '\r' {
        line.drop_last()
    } else {
        line
    }
}

/// The lines of `s`: each ends at a line feed, with an optional carriage return before it, or at
/// the end of the text.
pub open spec fn lines(s: Seq<char>) -> Seq<Seq<char>>
    decreases s.len(),
{
    let p = position(s, CharClass::Newline) as int;
    if s.len() == 0 {
        seq![]
    } else if p < s.len() {
        seq![without_cr(s.take(p))] + lines(s.skip(p + 1))
    } else {
        seq![s]
    }
}

/// The position is the first index of the class, or the length where there is none.
pub proof fn lemma_position(s: Seq<char>, k: CharClass)
    ensures
        position(s, k) <= s.len(),
        forall|i: int| 0 <= i < position(s, k) ==> !k.holds(#[trigger] s[i]),
        position(s, k) < s.len() ==> k.holds(s[position(s, k) as int]),
    decreases s.len(),
{
    if s.len() > 0 && !k.holds(s[0]) {
        let t = s.drop_first();
        lemma_position(t, k);
        assert forall|i: int| 0 <= i < position(s, k) implies !k.holds(#[trigger] s[i]) by {
            if i > 0 {
                assert(s[i] == t[i - 1]);
            }
        }
        if position(s, k) < s.len() {
            assert(s[position(s, k) as int] == t[position(t, k) as int]);
        }
    }
}

/// The first index of the class is the position.
pub proof fn lemma_position_is(s: Seq<char>, k: CharClass, p: int)
    requires
        0 <= p <= s.len(),
        forall|i: int| 0 <= i < p ==> !k.holds(#[trigger] s[i]),
        p < s.len() ==> k.holds(s[p]),
    ensures
        position(s, k) == p,
{
    lemma_position(s, k);
    let q = position(s, k) as int;
    if p < q {
        assert(!k.holds(s[p]));
    }
    if q < p {
        assert(!k.holds(s[q]));
    }
}

/// Finds the first character of class `k` at or after `from`.
fn position_from(v: &Vec<char>, from: usize, k: CharClass) -> (p: usize)
    requires
        from <= v@.len(),
    ensures
        from <= p <= v@.len(),
        p - from == position(v@.skip(from as int), k),
{
    let mut p: usize = from;
    while p < v.len() && !k.test(v[p])
        invariant
            from <= p <= v@.len(),
            forall|i: int| from <= i < p ==> !k.holds(#[trigger] v@[i]),
        decreases v.len() - p,
    {
        p = p + 1;
    }
    proof {
        let rest = v@.skip(from as int);
        assert forall|i: int| 0 <= i < p - from implies !k.holds(#[trigger] rest[i]) by {
            assert(rest[i] == v@[from + i]);
        }
        lemma_position_is(rest, k, p - from);
    }
    p
}

/// Finds the first character of class `k`.
pub fn find_class(s: &str, k: CharClass) -> (p: Option<usize>)
    ensures
        p is Some <==> position(s@, k) < s@.len(),
        p matches Some(i) ==> i == position(s@, k) && i < usize::MAX,
{
    let v = chars_of(s);
    let p = position_from(&v, 0, k);
    assert(v@.skip(0) =~= s@);
    if p < v.len() {
        Some(p)
    } else {
        None
    }
}

/// The index of the last character of class `k`, and -1 where there is none.
pub open spec fn last_position(s: Seq<char>, k: CharClass) -> int
    decreases s.len(),
{
    if s.len() == 0 {
        -1
    } else if k.holds(s.last()) {
        s.len() - 1
    } else {
        last_position(s.drop_last(), k)
    }
}

/// Finds the last character of class `k`.
pub fn find_last_class(s: &str, k: CharClass) -> (p: Option<usize>)
    ensures
        p is Some <==> last_position(s@, k) >= 0,
        p matches Some(i) ==> i == last_position(s@, k) && i < s@.len() <= usize::MAX,
{
    let v = chars_of(s);
    let mut n: usize = v.len();
    assert(s@.take(n as int) =~= s@);
    while n > 0
        invariant
            n <= v@.len() <= usize::MAX,
            v@ == s@,
            last_position(s@, k) == last_position(s@.take(n as int), k),
        decreases n,
    {
        assert(s@.take(n as int).drop_last() =~= s@.take(n - 1));
        if k.test(v[n - 1]) {
            return Some(n - 1);
        }
        n = n - 1;
    }
    None
}

/// Splits at every character of class `k`.
pub fn split_at(s: &str, k: CharClass) -> (r: Vec<String>)
    ensures
        r.deep_view() == split(s@, k),
{
    let v = chars_of(s);
    let mut r: Vec<String> = Vec::new();
    let mut from: usize = 0;
    assert(v@.skip(0) =~= s@);
    assert(r.deep_view() + split(v@.skip(0), k) =~= split(s@, k));
    loop
        invariant
            from <= v@.len(),
            v@ == s@,
            r.deep_view() + split(v@.skip(from as int), k) == split(s@, k),
        decreases v@.len() + 1 - from,
    {
        let p = position_from(&v, from, k);
        let piece = text_of(&v, from, p);
        let ghost rest = v@.skip(from as int);
        let ghost before = r.deep_view();
        r.push(piece);
        assert(r.deep_view() =~= before.push(piece@));
        if p < v.len() {
            assert(rest.take(p - from) =~= piece@);
            assert(rest.skip(p - from + 1) =~= v@.skip(p + 1));
            assert(before + (seq![piece@] + split(v@.skip(p + 1), k)) =~= r.deep_view() + split(
                v@.skip(p + 1),
                k,
            ));
            from = p + 1;
        } else {
            assert(rest =~= piece@);
            assert(before + seq![piece@] =~= r.deep_view());
            return r;
        }
    }
}

/// The non-empty texts of `v`, in order.
pub fn non_empty(v: &Vec<String>) -> (r: Vec<String>)
    ensures
        r.deep_view() == v.deep_view().filter(|w: Seq<char>| w.len() > 0),
{
    let mut r: Vec<String> = Vec::new();
    let ghost keep = |w: Seq<char>| w.len() > 0;
    let mut i: usize = 0;
    assert(v.deep_view().take(0).filter(keep) =~= seq![]) by {
        reveal(Seq::filter);
    }
    assert(r.deep_view() =~= seq![]);
    while i < v.len()
        invariant
            i <= v@.len(),
            keep == (|w: Seq<char>| w.len() > 0),
            r.deep_view() == v.deep_view().take(i as int).filter(keep),
        decreases v.len() - i,
    {
        let ghost before = r.deep_view();
        if !v[i].as_str().is_empty() {
            r.push(v[i].clone());
            assert(r.deep_view() =~= before.push(v@[i as int]@));
        }
        proof {
            lemma_filter_step(v.deep_view(), i as int, keep);
        }
        i = i + 1;
    }
    assert(v.deep_view().take(i as int) =~= v.deep_view());
    r
}

/// Filtering one element further.
pub proof fn lemma_filter_step<A>(s: Seq<A>, i: int, keep: spec_fn(A) -> bool)
    requires
        0 <= i < s.len(),
    ensures
        s.take(i + 1).filter(keep) == if keep(s[i]) {
            s.take(i).filter(keep).push(s[i])
        } else {
            s.take(i).filter(keep)
        },
{
    reveal(Seq::filter);
    assert(s.take(i + 1).drop_last() =~= s.take(i));
    assert(s.take(i + 1).last() == s[i]);
}

/// Splits at white space and drops the empty pieces.
pub fn split_whitespace(s: &str) -> (r: Vec<String>)
    ensures
        r.deep_view() == words(s@),
{
    let pieces = split_at(s, CharClass::Whitespace);
    non_empty(&pieces)
}

/// Splits into lines.
pub fn split_lines(s: &str) -> (r: Vec<String>)
    ensures
        r.deep_view() == lines(s@),
{
    let v = chars_of(s);
    let mut r: Vec<String> = Vec::new();
    let mut from: usize = 0;
    assert(v@.skip(0) =~= s@);
    assert(r.deep_view() + lines(v@.skip(0)) =~= lines(s@));
    while from < v.len()
        invariant
            from <= v@.len(),
            v@ == s@,
            r.deep_view() + lines(v@.skip(from as int)) == lines(s@),
        decreases v@.len() - from,
    {
        let k = CharClass::Newline;
        let p = position_from(&v, from, k);
        let ghost rest = v@.skip(from as int);
        let ghost before = r.deep_view();
        if p < v.len() {
            let end: usize = if p > from && v[p - 1] == '\r' {
                p - 1
            } else {
                p
            };
            let piece = text_of(&v, from, end);
            r.push(piece);
            assert(r.deep_view() =~= before.push(piece@));
            assert(without_cr(rest.take(p - from)) =~= piece@);
            assert(rest.skip(p - from + 1) =~= v@.skip(p + 1));
            assert(before + (seq![piece@] + lines(v@.skip(p + 1))) =~= r.deep_view() + lines(
                v@.skip(p + 1),
            ));
            from = p + 1;
        } else {
            let piece = text_of(&v, from, p);
            r.push(piece);
            assert(r.deep_view() =~= before.push(piece@));
            assert(rest =~= piece@);
            assert(v@.skip(p as int) =~= seq![]);
            assert(before + seq![piece@] =~= r.deep_view() + lines(v@.skip(p as int)));
            from = p;
        }
    }
    assert(v@.skip(from as int) =~= seq![]);
    r
}

/// The entries of a comma-separated list, trimmed, without the empty ones.
pub open spec fn csv_entries(s: Seq<char>) -> Seq<Seq<char>> {
    split(s, CharClass::Comma).map_values(|e: Seq<char>| trim_spec(e)).filter(
        |e: Seq<char>| e.len() > 0,
    )
}

/// Splits a comma-separated list into its trimmed, non-empty entries.
pub fn split_csv(value: &str) -> (r: Vec<String>)
    ensures
        r.deep_view() == csv_entries(value@),
{
    let pieces = split_at(value, CharClass::Comma);
    let trimmed = trim_all(&pieces);
    non_empty(&trimmed)
}

/// The entries of a list are not empty, and have no white space around them.
pub proof fn lemma_csv_entries(s: Seq<char>, i: int)
    requires
        0 <= i < csv_entries(s).len(),
    ensures
        csv_entries(s)[i].len() > 0,
        trim_spec(csv_entries(s)[i]) == csv_entries(s)[i],
{
    let trimmed = split(s, CharClass::Comma).map_values(|e: Seq<char>| trim_spec(e));
    let keep = |e: Seq<char>| e.len() > 0;
    let e = csv_entries(s)[i];
    trimmed.lemma_filter_pred(keep, i);
    assert(trimmed.filter(keep).contains(e));
    trimmed.lemma_filter_contains_rev(keep, e);
    let j = choose|j: int| 0 <= j < trimmed.len() && trimmed[j] == e;
    lemma_trim_idempotent(split(s, CharClass::Comma)[j]);
}

/// Trims every text of `v`.
pub fn trim_all(v: &Vec<String>) -> (r: Vec<String>)
    ensures
        r.deep_view() == v.deep_view().map_values(|e: Seq<char>| trim_spec(e)),
{
    let mut r: Vec<String> = Vec::new();
    let mut i: usize = 0;
    while i < v.len()
        invariant
            i <= v@.len(),
            r@.len() == i,
            forall|j: int| 0 <= j < i ==> (#[trigger] r@[j])@ == trim_spec(v@[j]@),
        decreases v.len() - i,
    {
        r.push(trim(v[i].as_str()));
        i = i + 1;
    }
    assert(r.deep_view() =~= v.deep_view().map_values(|e: Seq<char>| trim_spec(e)));
    r
}

// ---------------------------------------------------------------------------------------------
// Joining
// ---------------------------------------------------------------------------------------------

/// The texts one after the other, with `sep` between each two.
pub open spec fn joined(parts: Seq<Seq<char>>, sep: Seq<char>) -> Seq<char>
    decreases parts.len(),
{
    if parts.len() == 0 {
        seq![]
    } else if parts.len() == 1 {
        parts[0]
    } else {
        joined(parts.drop_last(), sep) + sep + parts.last()
    }
}

/// Joins texts with `sep` between each two.
pub fn join(parts: &Vec<String>, sep: &str) -> (r: String)
    ensures
        r@ == joined(parts.deep_view(), sep@),
{
    let mut r: String = String::new();
    let mut i: usize = 0;
    while i < parts.len()
        invariant
            i <= parts@.len(),
            r@ == joined(parts.deep_view().take(i as int), sep@),
        decreases parts.len() - i,
    {
        let ghost next = parts.deep_view().take(i + 1);
        assert(next.drop_last() =~= parts.deep_view().take(i as int));
        assert(next.last() == parts@[i as int]@);
        if i > 0 {
            r.append(sep);
        }
        r.append(parts[i].as_str());
        assert(i == 0 ==> r@ =~= parts@[0]@);
        i = i + 1;
    }
    assert(parts.deep_view().take(i as int) =~= parts.deep_view());
    r
}

/// The characters of an optional text.
pub open spec fn optional(s: Option<String>) -> Option<Seq<char>> {
    match s {
        Some(t) => Some(t@),
        None => None,
    }
}

/// The characters of an optional borrowed text.
pub open spec fn optional_str(s: Option<&str>) -> Option<Seq<char>> {
    match s {
        Some(t) => Some(t@),
        None => None,
    }
}

/// A copy of a list of texts.
pub fn copy_list(v: &Vec<String>) -> (r: Vec<String>)
    ensures
        r@ == v@,
{
    let mut r: Vec<String> = Vec::new();
    let mut i: usize = 0;
    while i < v.len()
        invariant
            i <= v@.len(),
            r@ =~= v@.take(i as int),
        decreases v.len() - i,
    {
        r.push(v[i].clone());
        i = i + 1;
    }
    r
}

} // verus!
