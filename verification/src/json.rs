//! JSON text.

use vstd::prelude::*;

use crate::number;
use crate::number::{decimal_text, signed_decimal_text};

verus! {

/// Any JSON value. The library carries such values through and does not look inside.
#[verifier::external_type_specification]
#[verifier::external_body]
pub struct ExJsonValue(serde_json::Value);

/// How a character is written in a string literal: a quote and a backslash behind a backslash, a
/// control character by its short form or its code, and any other character as it is.
pub open spec fn escaped(c: char) -> Seq<char> {
    let code = c as nat;
    if c == '"' || c == '\\' {
        seq!['\\', c]
    } else if code == 8 {
        seq!['\\', 'b']
    } else if code == 9 {
        seq!['\\', 't']
    } else if code == 10 {
        seq!['\\', 'n']
    } else if code == 12 {
        seq!['\\', 'f']
    } else if code == 13 {
        seq!['\\', 'r']
    } else if code < 32 {
        seq!['\\', 'u', '0', '0', number::hex_char(code / 16), number::hex_char(code % 16)]
    } else {
        seq![c]
    }
}

/// The characters of a text as they are written in a string literal.
pub open spec fn escaped_text(s: Seq<char>) -> Seq<char>
    decreases s.len(),
{
    if s.len() == 0 {
        seq![]
    } else {
        escaped_text(s.drop_last()) + escaped(s.last())
    }
}

/// The JSON string literal of a text.
pub open spec fn json_string(s: Seq<char>) -> Seq<char> {
    seq!['"'] + escaped_text(s) + seq!['"']
}

/// The text that `serde_json` writes for the value that it reads from a text; `None` where the text
/// is not JSON.
pub uninterp spec fn json_rewritten(s: Seq<char>) -> Option<Seq<char>>;

/// Calls `serde_json::to_string` on a text, which succeeds and writes the string literal of the text.
#[verifier::external_body]
pub(crate) fn json_string_text(s: &str) -> (r: String)
    ensures
        r@ == json_string(s@),
{
    serde_json::to_string(s).unwrap_or_default()
}

/// Calls `serde_json::from_str` for any JSON value, and writes the value that it reads. Both depend
/// on the text alone.
#[verifier::external_body]
pub(crate) fn rewrite_json(s: &str) -> (r: Option<String>)
    ensures
        r is Some <==> json_rewritten(s@) is Some,
        r matches Some(t) ==> json_rewritten(s@) == Some(t@),
{
    serde_json::from_str::<serde_json::Value>(s).ok().map(|v| v.to_string())
}

/// A member of a JSON object: its name, and its value as JSON text.
pub struct MemberView {
    pub name: Seq<char>,
    pub value: Seq<char>,
}

/// The members of an object, with commas between them.
pub open spec fn members_text(members: Seq<MemberView>) -> Seq<char>
    decreases members.len(),
{
    if members.len() == 0 {
        seq![]
    } else {
        let m = members.last();
        let own = seq!['"'] + m.name + "\":"@ + m.value;
        if members.len() == 1 {
            own
        } else {
            members_text(members.drop_last()) + seq![','] + own
        }
    }
}

/// The text of an object with these members.
pub open spec fn object_text(members: Seq<MemberView>) -> Seq<char> {
    seq!['{'] + members_text(members) + seq!['}']
}

/// The elements of an array, with commas between them.
pub open spec fn elements_text(elements: Seq<Seq<char>>) -> Seq<char>
    decreases elements.len(),
{
    if elements.len() == 0 {
        seq![]
    } else if elements.len() == 1 {
        elements[0]
    } else {
        elements_text(elements.drop_last()) + seq![','] + elements.last()
    }
}

/// The text of an array with these elements.
pub open spec fn array_text(elements: Seq<Seq<char>>) -> Seq<char> {
    seq!['['] + elements_text(elements) + seq![']']
}

/// A member with this name and value.
pub open spec fn member(name: Seq<char>, value: Seq<char>) -> MemberView {
    MemberView { name, value }
}

/// An object that is being written.
pub struct ObjectWriter {
    /// What is written so far, without the closing brace.
    pub text: String,
    pub members: Ghost<Seq<MemberView>>,
}

impl ObjectWriter {
    /// Whether the text is that of the members so far.
    pub open spec fn wf(self) -> bool {
        self.text@ == seq!['{'] + members_text(self.members@)
    }

    /// An object without members.
    pub fn new() -> (r: Self)
        ensures
            r.wf(),
            r.members@ == Seq::<MemberView>::empty(),
    {
        let mut text: String = String::new();
        text.push('{');
        let r = ObjectWriter { text, members: Ghost(Seq::empty()) };
        assert(r.text@ =~= seq!['{'] + members_text(r.members@));
        r
    }

    /// Adds a member whose value is JSON text.
    pub fn raw(&mut self, name: &str, value: &str)
        requires
            old(self).wf(),
        ensures
            final(self).wf(),
            final(self).members@ == old(self).members@.push(member(name@, value@)),
    {
        let ghost before = self.members@;
        let ghost start = self.text@;
        let empty = self.text.as_str().unicode_len() == 1;
        proof {
            lemma_members_text_is_longer(before);
        }
        if !empty {
            self.text.push(',');
        }
        self.text.push('"');
        self.text.append(name);
        self.text.append("\":");
        self.text.append(value);
        self.members = Ghost(before.push(member(name@, value@)));
        proof {
            let own = seq!['"'] + name@ + "\":"@ + value@;
            assert(self.members@.drop_last() =~= before);
            if before.len() == 0 {
                assert(start =~= seq!['{']);
                assert(self.text@ =~= seq!['{'] + own);
            } else {
                assert(self.text@ =~= seq!['{'] + (members_text(before) + seq![','] + own));
            }
        }
    }

    /// Adds a member whose value is a text.
    pub fn string(&mut self, name: &str, value: &str)
        requires
            old(self).wf(),
        ensures
            final(self).wf(),
            final(self).members@ == old(self).members@.push(member(name@, json_string(value@))),
    {
        let text = json_string_text(value);
        self.raw(name, text.as_str());
    }

    /// Adds a member whose value is a number.
    pub fn number(&mut self, name: &str, value: u64)
        requires
            old(self).wf(),
        ensures
            final(self).wf(),
            final(self).members@ == old(self).members@.push(
                member(name@, number::decimal(value as nat)),
            ),
    {
        let text = decimal_text(value);
        self.raw(name, text.as_str());
    }

    /// Adds a member whose value is a list of texts.
    pub fn strings(&mut self, name: &str, values: &Vec<String>)
        requires
            old(self).wf(),
        ensures
            final(self).wf(),
            final(self).members@ == old(self).members@.push(
                member(name@, strings_text(values.deep_view())),
            ),
    {
        let text = string_array(values);
        self.raw(name, text.as_str());
    }

    /// The finished object.
    pub fn finish(self) -> (r: String)
        requires
            self.wf(),
        ensures
            r@ == object_text(self.members@),
    {
        let mut r = self.text;
        r.push('}');
        assert(r@ =~= object_text(self.members@));
        r
    }
}

proof fn lemma_members_text_is_longer(members: Seq<MemberView>)
    ensures
        members.len() == 0 <==> members_text(members).len() == 0,
{
}

/// The text of an array of texts.
pub open spec fn strings_text(values: Seq<Seq<char>>) -> Seq<char> {
    array_text(values.map_values(|v: Seq<char>| json_string(v)))
}

/// Writes an array of JSON values.
pub fn array(elements: &Vec<String>) -> (r: String)
    ensures
        r@ == array_text(elements.deep_view()),
{
    let mut r: String = String::new();
    r.push('[');
    let mut i: usize = 0;
    assert(r@ =~= seq!['['] + elements_text(elements.deep_view().take(0)));
    while i < elements.len()
        invariant
            i <= elements@.len(),
            r@ == seq!['['] + elements_text(elements.deep_view().take(i as int)),
        decreases elements.len() - i,
    {
        let ghost before = elements.deep_view().take(i as int);
        let ghost next = elements.deep_view().take(i + 1);
        assert(next.drop_last() =~= before);
        assert(next.last() == elements@[i as int]@);
        if i > 0 {
            r.push(',');
        }
        r.append(elements[i].as_str());
        assert(r@ =~= seq!['['] + elements_text(next)) by {
            if i > 0 {
                assert(elements_text(next) == elements_text(before) + seq![','] + next.last());
            } else {
                assert(elements_text(next) == next[0]);
            }
        }
        i = i + 1;
    }
    assert(elements.deep_view().take(i as int) =~= elements.deep_view());
    r.push(']');
    assert(r@ =~= array_text(elements.deep_view()));
    r
}

/// Writes an array of texts.
pub fn string_array(values: &Vec<String>) -> (r: String)
    ensures
        r@ == strings_text(values.deep_view()),
{
    let mut quoted: Vec<String> = Vec::new();
    let mut i: usize = 0;
    while i < values.len()
        invariant
            i <= values@.len(),
            quoted@.len() == i,
            forall|j: int| 0 <= j < i ==> (#[trigger] quoted@[j])@ == json_string(values@[j]@),
        decreases values.len() - i,
    {
        quoted.push(json_string_text(values[i].as_str()));
        i = i + 1;
    }
    assert(quoted.deep_view() =~= values.deep_view().map_values(|v: Seq<char>| json_string(v)));
    array(&quoted)
}

/// The JSON text of an optional number.
pub open spec fn optional_number_text(n: Option<i32>) -> Seq<char> {
    match n {
        Some(v) => number::signed_decimal(v as int),
        None => "null"@,
    }
}

/// Writes an optional number.
pub fn optional_number(n: Option<i32>) -> (r: String)
    ensures
        r@ == optional_number_text(n),
{
    match n {
        Some(v) => signed_decimal_text(v),
        None => "null".to_string(),
    }
}

} // verus!
