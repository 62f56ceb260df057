//! Laws on JSON text.

use vstd::prelude::*;

use crate::json;
use crate::laws::events;
use crate::number;
use crate::text;

verus! {

/// The literal of a text is written character by character: the literal of a whole has the characters of
/// its parts, between two quotes.
pub proof fn lemma_literals_are_written_in_order(a: Seq<char>, b: Seq<char>)
    ensures
        json::escaped_text(a + b) == json::escaped_text(a) + json::escaped_text(b),
        json::json_string(a).len() == json::escaped_text(a).len() + 2,
        json::json_string(a)[0] == '"',
        json::json_string(a).last() == '"',
        json::json_string(a).subrange(1, json::json_string(a).len() - 1) == json::escaped_text(a),
    decreases b.len(),
{
    let s = json::json_string(a);
    assert(s.subrange(1, s.len() - 1) =~= json::escaped_text(a));
    if b.len() == 0 {
        assert(a + b =~= a);
        assert(json::escaped_text(a) + json::escaped_text(b) =~= json::escaped_text(a));
    } else {
        lemma_literals_are_written_in_order(a, b.drop_last());
        assert((a + b).drop_last() =~= a + b.drop_last());
        assert((a + b).last() == b.last());
        assert(json::escaped_text(a + b) =~= json::escaped_text(a) + json::escaped_text(b));
    }
}

/// How single characters are written: a quote, a backslash and a control character behind a backslash,
/// and every other character as it is.
pub proof fn lemma_characters_are_escaped(c: char)
    ensures
        c == '"' ==> json::escaped_text(seq![c]) == seq!['\\', '"'],
        c == '\\' ==> json::escaped_text(seq![c]) == seq!['\\', '\\'],
        c == '\n' ==> json::escaped_text(seq![c]) == seq!['\\', 'n'],
        c == '\r' ==> json::escaped_text(seq![c]) == seq!['\\', 'r'],
        c == '\t' ==> json::escaped_text(seq![c]) == seq!['\\', 't'],
        c as int == 8 ==> json::escaped_text(seq![c]) == seq!['\\', 'b'],
        c as int == 12 ==> json::escaped_text(seq![c]) == seq!['\\', 'f'],
        c as int >= 32 && c != '"' && c != '\\' ==> json::escaped_text(seq![c]) == seq![c],
        (c as int) < 8 || c as int == 11 || 14 <= c as int <= 15 ==> json::escaped_text(
            seq![c],
        ).take(5) == seq!['\\', 'u', '0', '0', '0'],
        16 <= c as int <= 31 ==> json::escaped_text(seq![c]).take(5) == seq![
            '\\',
            'u',
            '0',
            '0',
            '1',
        ],
        (c as int) < 32 ==> json::escaped_text(seq![c])[0] == '\\',
{
    reveal_with_fuel(json::escaped_text, 2);
    let one = seq![c];
    assert(one.drop_last() =~= Seq::<char>::empty());
    assert(json::escaped_text(one) =~= json::escaped(c));
    if (c as int) < 32 && json::escaped(c).len() == 6 {
        assert(json::escaped(c).take(5) =~= seq![
            '\\',
            'u',
            '0',
            '0',
            number::hex_char((c as nat) / 16),
        ]);
    }
}

/// The texts of the members of an object.
pub open spec fn member_texts(members: Seq<json::MemberView>) -> Seq<Seq<char>> {
    members.map_values(|m: json::MemberView| events::member_text(m.name, m.value))
}

/// An object is its members, in order, with commas between them, between braces.
pub proof fn lemma_objects_are_their_members(members: Seq<json::MemberView>)
    ensures
        json::object_text(members) == seq!['{'] + text::joined(member_texts(members), seq![','])
            + seq!['}'],
{
    lemma_members_are_joined(members);
}

proof fn lemma_members_are_joined(members: Seq<json::MemberView>)
    ensures
        json::members_text(members) == text::joined(member_texts(members), seq![',']),
    decreases members.len(),
{
    reveal_strlit("\":");
    assert("\":"@ =~= seq!['"', ':']);
    let texts = member_texts(members);
    if members.len() > 0 {
        let m = members.last();
        let own = seq!['"'] + m.name + "\":"@ + m.value;
        assert(own =~= events::member_text(m.name, m.value));
        assert(texts.last() == own);
        lemma_members_are_joined(members.drop_last());
        assert(texts.drop_last() =~= member_texts(members.drop_last()));
        if members.len() == 1 {
            assert(texts =~= seq![own]);
            assert(texts[0] == own);
        }
    }
}

/// An array is its elements, in order, with commas between them, between brackets.
pub proof fn lemma_arrays_are_their_elements(elements: Seq<Seq<char>>)
    ensures
        json::array_text(elements) == seq!['['] + text::joined(elements, seq![',']) + seq![']'],
{
    lemma_elements_are_joined(elements);
}

proof fn lemma_elements_are_joined(elements: Seq<Seq<char>>)
    ensures
        json::elements_text(elements) == text::joined(elements, seq![',']),
    decreases elements.len(),
{
    if elements.len() > 0 {
        lemma_elements_are_joined(elements.drop_last());
    }
}

/// A list of texts is the array of their literals.
pub proof fn lemma_lists_are_written(values: Seq<Seq<char>>)
    ensures
        json::strings_text(values) == seq!['['] + text::joined(
            Seq::new(values.len(), |i: int| json::json_string(values[i])),
            seq![','],
        ) + seq![']'],
{
    let literals = values.map_values(|v: Seq<char>| json::json_string(v));
    assert(literals =~= Seq::new(values.len(), |i: int| json::json_string(values[i])));
    lemma_arrays_are_their_elements(literals);
}

/// What is joined: nothing is empty, one text is itself, and another one comes behind the separator.
pub proof fn lemma_joined_texts(parts: Seq<Seq<char>>, sep: Seq<char>, last: Seq<char>)
    ensures
        text::joined(Seq::<Seq<char>>::empty(), sep) == Seq::<char>::empty(),
        parts.len() == 0 ==> text::joined(parts.push(last), sep) == last,
        parts.len() > 0 ==> text::joined(parts.push(last), sep) == text::joined(parts, sep) + sep
            + last,
{
    assert(parts.push(last).drop_last() =~= parts);
}

/// A number that may be missing is written in decimal, with a minus sign where it is negative, or as
/// `null`.
pub proof fn lemma_optional_numbers(n: i32)
    ensures
        json::optional_number_text(None) == "null"@,
        n >= 0 ==> json::optional_number_text(Some(n)) == number::decimal(n as nat),
        n < 0 ==> json::optional_number_text(Some(n)) == seq!['-'] + number::decimal(
            (-n) as nat,
        ),
{
}

} // verus!
