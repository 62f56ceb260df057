//! Searching in text, and the order of texts.

use vstd::prelude::*;

use crate::text;
use crate::text::{chars_of, same_text, test_digit, test_hex_digit, text_of};

verus! {

/// Whether `n` stands in `h` from index `i` on.
pub open spec fn occurs_at(h: Seq<char>, n: Seq<char>, i: int) -> bool {
    0 <= i && i + n.len() <= h.len() && h.subrange(i, i + n.len()) == n
}

/// Whether `n` stands anywhere in `h`.
pub open spec fn contains_text(h: Seq<char>, n: Seq<char>) -> bool {
    exists|i: int| occurs_at(h, n, i)
}

/// Whether `i` is the first index at which `n` stands in `h`.
pub open spec fn first_at(h: Seq<char>, n: Seq<char>, i: int) -> bool {
    occurs_at(h, n, i) && forall|j: int| 0 <= j < i ==> !occurs_at(h, n, j)
}

/// The first index at which `n` stands in `h`, where there is one.
pub open spec fn index_of_text(h: Seq<char>, n: Seq<char>) -> int {
    choose|i: int| first_at(h, n, i)
}

/// There is only one first index.
pub proof fn lemma_first_at_is_index(h: Seq<char>, n: Seq<char>, i: int)
    requires
        first_at(h, n, i),
    ensures
        index_of_text(h, n) == i,
{
    let j = index_of_text(h, n);
    assert(first_at(h, n, j));
    if i < j {
        assert(!occurs_at(h, n, i));
    }
    if j < i {
        assert(!occurs_at(h, n, j));
    }
}

/// Where a text occurs, it occurs for a first time.
pub proof fn lemma_index_of_text(h: Seq<char>, n: Seq<char>)
    requires
        contains_text(h, n),
    ensures
        first_at(h, n, index_of_text(h, n)),
{
    let i = choose|i: int| occurs_at(h, n, i);
    lemma_first_before(h, n, i);
}

proof fn lemma_first_before(h: Seq<char>, n: Seq<char>, i: int)
    requires
        occurs_at(h, n, i),
    ensures
        exists|j: int| first_at(h, n, j),
    decreases i,
{
    if exists|j: int| 0 <= j < i && occurs_at(h, n, j) {
        let j = choose|j: int| 0 <= j < i && occurs_at(h, n, j);
        lemma_first_before(h, n, j);
    } else {
        assert(first_at(h, n, i));
    }
}

fn matches_at(h: &Vec<char>, n: &Vec<char>, i: usize) -> (r: bool)
    requires
        i + n@.len() <= h@.len(),
    ensures
        r == occurs_at(h@, n@, i as int),
{
    let mut j: usize = 0;
    let size: usize = h.len();
    while j < n.len()
        invariant
            j <= n@.len(),
            size == h@.len(),
            i + n@.len() <= h@.len() <= usize::MAX,
            forall|m: int| 0 <= m < j ==> h@[i + m] == n@[m],
        decreases n.len() - j,
    {
        if h[i + j] != n[j] {
            assert(h@.subrange(i as int, i + n@.len())[j as int] != n@[j as int]);
            return false;
        }
        j = j + 1;
    }
    assert(h@.subrange(i as int, i + n@.len()) =~= n@);
    true
}

fn find_from(h: &Vec<char>, from: usize, n: &Vec<char>) -> (r: Option<usize>)
    requires
        from <= h@.len(),
    ensures
        r is None ==> !contains_text(h@.skip(from as int), n@),
        r matches Some(i) ==> from <= i <= h@.len() && first_at(
            h@.skip(from as int),
            n@,
            i - from,
        ),
{
    let ghost rest = h@.skip(from as int);
    let mut i: usize = from;
    while i <= h.len() && n.len() <= h.len() - i
        invariant
            from <= i <= h@.len() + 1,
            rest == h@.skip(from as int),
            i <= h@.len() || n@.len() == 0,
            forall|j: int| 0 <= j < i - from ==> !occurs_at(rest, n@, j),
        decreases h.len() + 1 - i,
    {
        let here = matches_at(h, n, i);
        assert(here == occurs_at(rest, n@, i - from)) by {
            assert(rest.subrange(i - from, i - from + n@.len()) =~= h@.subrange(
                i as int,
                i + n@.len(),
            ));
        }
        if here {
            return Some(i);
        }
        if i == h.len() {
            return None;
        }
        i = i + 1;
    }
    None
}

/// Finds the first index, in characters, at which `n` stands in `h`.
pub fn find_text(h: &str, n: &str) -> (r: Option<usize>)
    ensures
        r is Some <==> contains_text(h@, n@),
        r matches Some(i) ==> {
            &&& first_at(h@, n@, i as int)
            &&& i == index_of_text(h@, n@)
            &&& i + n@.len() <= h@.len() <= usize::MAX
        },
{
    let x = chars_of(h);
    let y = chars_of(n);
    assert(x@.skip(0) =~= h@);
    assert(x.len() <= usize::MAX);
    let r = find_from(&x, 0, &y);
    proof {
        if let Some(i) = r {
            lemma_first_at_is_index(h@, n@, i as int);
        }
    }
    r
}

/// Tests whether `n` stands anywhere in `h`.
pub fn has_text(h: &str, n: &str) -> (r: bool)
    ensures
        r == contains_text(h@, n@),
{
    find_text(h, n).is_some()
}

/// `s` with every ASCII capital letter replaced by its small letter.
pub open spec fn lowercase(s: Seq<char>) -> Seq<char> {
    s.map_values(|c: char| text::lower(c))
}

/// `s` with every ASCII capital letter replaced by its small letter.
pub fn to_ascii_lowercase(s: &str) -> (r: String)
    ensures
        r@ == lowercase(s@),
{
    let v = chars_of(s);
    let mut r: String = String::new();
    let mut i: usize = 0;
    while i < v.len()
        invariant
            i <= v@.len(),
            v@ == s@,
            r@.len() == i,
            forall|j: int| 0 <= j < i ==> #[trigger] r@[j] == text::lower(v@[j]),
        decreases v.len() - i,
    {
        let c: char = v[i];
        let l: char = if 'A' <= c && c <= 'Z' {
            ((c as u8) + 32) as char
        } else {
            c
        };
        r.push(l);
        i = i + 1;
    }
    assert(r@ =~= lowercase(s@));
    r
}

/// Tests whether `s` begins with `p`.
pub fn starts_with(s: &str, p: &str) -> (r: bool)
    ensures
        r == p@.is_prefix_of(s@),
{
    let x = chars_of(s);
    let y = chars_of(p);
    if y.len() > x.len() {
        return false;
    }
    let r = matches_at(&x, &y, 0);
    assert(s@.subrange(0, p@.len() as int) =~= s@.take(p@.len() as int));
    r
}

/// The part of `s` from the character index `from` up to `to`.
pub fn subtext(s: &str, from: usize, to: usize) -> (r: String)
    requires
        from <= to <= s@.len(),
    ensures
        r@ == s@.subrange(from as int, to as int),
{
    let v = chars_of(s);
    text_of(&v, from, to)
}

/// The part of `s` from the character index `from` on.
pub fn text_after(s: &str, from: usize) -> (r: String)
    requires
        from <= s@.len(),
    ensures
        r@ == s@.skip(from as int),
{
    let v = chars_of(s);
    let r = text_of(&v, from, v.len());
    assert(r@ =~= s@.skip(from as int));
    r
}

/// Whether every character of `s` is an ASCII digit.
pub open spec fn all_digits(s: Seq<char>) -> bool {
    forall|i: int| 0 <= i < s.len() ==> text::is_digit(#[trigger] s[i])
}

/// Whether every character of `s` is an ASCII hexadecimal digit.
pub open spec fn all_hex_digits(s: Seq<char>) -> bool {
    forall|i: int| 0 <= i < s.len() ==> text::is_hex_digit(#[trigger] s[i])
}

/// Tests whether every character of `s` is an ASCII digit.
pub fn has_only_digits(s: &str) -> (r: bool)
    ensures
        r == all_digits(s@),
{
    let v = chars_of(s);
    let mut i: usize = 0;
    while i < v.len()
        invariant
            i <= v@.len(),
            v@ == s@,
            forall|j: int| 0 <= j < i ==> text::is_digit(#[trigger] v@[j]),
        decreases v.len() - i,
    {
        if !test_digit(v[i]) {
            assert(!text::is_digit(s@[i as int]));
            return false;
        }
        i = i + 1;
    }
    true
}

/// Tests whether every character of `s` is an ASCII hexadecimal digit.
pub fn has_only_hex_digits(s: &str) -> (r: bool)
    ensures
        r == all_hex_digits(s@),
{
    let v = chars_of(s);
    let mut i: usize = 0;
    while i < v.len()
        invariant
            i <= v@.len(),
            v@ == s@,
            forall|j: int| 0 <= j < i ==> text::is_hex_digit(#[trigger] v@[j]),
        decreases v.len() - i,
    {
        if !test_hex_digit(v[i]) {
            assert(!text::is_hex_digit(s@[i as int]));
            return false;
        }
        i = i + 1;
    }
    true
}

/// Tests whether `v` holds the text `s`.
pub fn list_contains(v: &Vec<String>, s: &str) -> (r: bool)
    ensures
        r == v.deep_view().contains(s@),
{
    let mut i: usize = 0;
    while i < v.len()
        invariant
            i <= v@.len(),
            forall|j: int| 0 <= j < i ==> (#[trigger] v@[j])@ != s@,
        decreases v.len() - i,
    {
        if same_text(v[i].as_str(), s) {
            assert(v.deep_view()[i as int] == s@);
            return true;
        }
        i = i + 1;
    }
    assert forall|j: int| 0 <= j < v@.len() implies v.deep_view()[j] != s@ by {
        assert(v@[j]@ != s@);
    }
    false
}

/// Lexicographic order by code point.
pub open spec fn text_less(a: Seq<char>, b: Seq<char>) -> bool
    decreases a.len(),
{
    if b.len() == 0 {
        false
    } else if a.len() == 0 {
        true
    } else {
        a[0] < b[0] || (a[0] == b[0] && text_less(a.drop_first(), b.drop_first()))
    }
}

/// Tests whether `a` comes before `b` in lexicographic order.
pub fn is_less(a: &str, b: &str) -> (r: bool)
    ensures
        r == text_less(a@, b@),
{
    let x = chars_of(a);
    let y = chars_of(b);
    let mut i: usize = 0;
    assert(a@.skip(0) =~= a@);
    assert(b@.skip(0) =~= b@);
    while i < x.len() && i < y.len()
        invariant
            x@ == a@,
            y@ == b@,
            i <= x@.len(),
            i <= y@.len(),
            text_less(a@, b@) == text_less(a@.skip(i as int), b@.skip(i as int)),
        decreases x.len() - i,
    {
        assert(a@.skip(i as int).drop_first() =~= a@.skip(i + 1));
        assert(b@.skip(i as int).drop_first() =~= b@.skip(i + 1));
        if x[i] < y[i] {
            return true;
        }
        if x[i] != y[i] {
            return false;
        }
        i = i + 1;
    }
    i < y.len()
}

/// The order is total: of two different texts, one comes before the other.
pub proof fn lemma_text_less_total(a: Seq<char>, b: Seq<char>)
    ensures
        text_less(a, b) || text_less(b, a) || a == b,
        !(text_less(a, b) && text_less(b, a)),
        a == b ==> !text_less(a, b),
    decreases a.len(),
{
    if a.len() > 0 && b.len() > 0 {
        lemma_text_less_total(a.drop_first(), b.drop_first());
        if a[0] == b[0] && a.drop_first() == b.drop_first() {
            assert(a =~= seq![a[0]] + a.drop_first());
            assert(b =~= seq![b[0]] + b.drop_first());
        }
    } else if a.len() == 0 && b.len() == 0 {
        assert(a =~= b);
    }
}

/// The order is transitive.
pub proof fn lemma_text_less_transitive(a: Seq<char>, b: Seq<char>, c: Seq<char>)
    requires
        text_less(a, b),
        text_less(b, c),
    ensures
        text_less(a, c),
    decreases a.len(),
{
    if a.len() > 0 && b.len() > 0 && c.len() > 0 && a[0] == b[0] && b[0] == c[0] {
        lemma_text_less_transitive(a.drop_first(), b.drop_first(), c.drop_first());
    }
}

} // verus!
