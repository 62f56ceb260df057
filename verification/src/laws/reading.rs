//! Laws on how texts are read and written, of the operations themselves.

use vstd::prelude::*;

use crate::json;
use crate::laws::texts;
use crate::number;
use crate::paths;
use crate::search;
use crate::text;

verus! {

/// A number that was written is read back, also with white space around it that is taken off first.
pub proof fn lemma_written_numbers_are_read(
    n: u64,
    written: String,
    head: Seq<char>,
    tail: Seq<char>,
    padded: &str,
    trimmed: String,
    s: &str,
    r: Option<u64>,
)
    requires
        call_ensures(number::decimal_text, (n,), written),
        texts::is_white(head),
        texts::is_white(tail),
        padded@ == head + written@ + tail,
        call_ensures(text::trim, (padded,), trimmed),
        s@ == trimmed@,
        call_ensures(number::parse_u64, (s,), r),
    ensures
        trimmed@ == written@,
        r == Some(n),
{
    let d = written@;
    texts::lemma_decimals_read_back(n as nat, u64::MAX as nat);
    assert('0' <= d[0] <= '9');
    assert('0' <= d[d.len() - 1] <= '9');
    texts::lemma_trim_takes_white_space_off(head, d, tail);
}

/// What is not a number is not read as one: anything with a character that is neither a digit nor a plus
/// sign in front.
pub proof fn lemma_other_texts_are_no_numbers(s: &str, i: int, r: Option<u64>)
    requires
        call_ensures(number::parse_u64, (s,), r),
        0 < i < s@.len(),
        !('0' <= s@[i] <= '9'),
    ensures
        r is None,
{
    texts::lemma_numbers_are_read(s@, u64::MAX as nat);
}

/// The entries of a list are those before a comma and those behind it, without the white space around
/// them, and without the empty ones.
pub proof fn lemma_lists_are_read(a: Seq<char>, b: &str, whole: &str, rest: Vec<String>, r: Vec<String>)
    requires
        !a.contains(','),
        whole@ == a.push(',') + b@,
        call_ensures(text::split_csv, (whole,), r),
        call_ensures(text::split_csv, (b,), rest),
    ensures
        text::trim_spec(a).len() > 0 ==> r.deep_view() == seq![text::trim_spec(a)]
            + rest.deep_view(),
        text::trim_spec(a).len() == 0 ==> r.deep_view() == rest.deep_view(),
{
    texts::lemma_csv_entries_of(a, b@);
    if text::trim_spec(a).len() == 0 {
        assert(Seq::<Seq<char>>::empty() + rest.deep_view() =~= rest.deep_view());
    }
}

/// The lines of a text are those before a line feed and those behind it.
pub proof fn lemma_texts_are_read_by_lines(
    a: Seq<char>,
    b: &str,
    whole: &str,
    rest: Vec<String>,
    r: Vec<String>,
)
    requires
        !a.contains('\n'),
        a.len() == 0 || a.last() != '\r',
        whole@ == a.push('\n') + b@,
        call_ensures(text::split_lines, (whole,), r),
        call_ensures(text::split_lines, (b,), rest),
    ensures
        r.deep_view() == seq![a] + rest.deep_view(),
{
    texts::lemma_lines_of(a, b@);
}

/// A word is followed by the words behind the white space.
pub proof fn lemma_texts_are_read_by_words(
    w: Seq<char>,
    c: char,
    b: &str,
    whole: &str,
    rest: Vec<String>,
    r: Vec<String>,
)
    requires
        texts::has_no_white(w),
        w.len() > 0,
        text::is_whitespace(c),
        whole@ == w.push(c) + b@,
        call_ensures(text::split_whitespace, (whole,), r),
        call_ensures(text::split_whitespace, (b,), rest),
    ensures
        r.deep_view() == seq![w] + rest.deep_view(),
{
    texts::lemma_words(w, c, b@);
}

/// A text is found in another exactly where the other is made of something, the text, and something.
pub proof fn lemma_texts_are_searched(h: &str, n: &str, r: bool)
    requires
        call_ensures(search::has_text, (h, n), r),
    ensures
        r <==> exists|a: Seq<char>, b: Seq<char>| h@ == #[trigger] (a + n@ + b),
{
    texts::lemma_texts_are_found(h@, n@);
}

/// Small letters: every capital letter from `A` to `Z` becomes its small letter, and nothing else
/// changes.
pub proof fn lemma_letters_become_small(s: &str, r: String, i: int)
    requires
        call_ensures(search::to_ascii_lowercase, (s,), r),
        0 <= i < s@.len(),
    ensures
        r@.len() == s@.len(),
        'A' <= s@[i] <= 'Z' ==> r@[i] as int - 'a' as int == s@[i] as int - 'A' as int,
        !('A' <= s@[i] <= 'Z') ==> r@[i] == s@[i],
{
    texts::lemma_lowercase(s@, i);
}

/// A path below a directory begins with the directory and ends with the rest, with one slash between
/// them where the directory does not end with one.
pub proof fn lemma_paths_below_directories(base: &str, name: &str, r: String)
    requires
        call_ensures(paths::join_path, (base, name), r),
        base@.len() > 0,
    ensures
        base@.last() == '/' ==> r@ == base@ + name@,
        base@.last() != '/' ==> r@ == base@ + seq!['/'] + name@,
{
    if base@.last() != '/' {
        assert(r@ =~= base@ + seq!['/'] + name@);
    }
}

/// A list of texts is written as an array of their literals, in order and none left out.
pub proof fn lemma_lists_are_written_as_arrays(values: &Vec<String>, r: String)
    requires
        call_ensures(json::string_array, (values,), r),
    ensures
        r@ == seq!['['] + text::joined(
            Seq::new(values@.len(), |i: int| json::json_string(values@[i]@)),
            seq![','],
        ) + seq![']'],
{
    let views = values.deep_view();
    crate::laws::objects::lemma_lists_are_written(views);
    assert(Seq::new(views.len(), |i: int| json::json_string(views[i])) =~= Seq::new(
        values@.len(),
        |i: int| json::json_string(values@[i]@),
    ));
}

} // verus!
