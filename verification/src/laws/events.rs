//! Laws on the tags of events and on the objects in their content.

use vstd::prelude::*;

use crate::event;
use crate::json;
use crate::search;

verus! {

/// Which tags have this name.
pub open spec fn by_name(name: Seq<char>) -> spec_fn(Seq<Seq<char>>) -> bool {
    |t: Seq<Seq<char>>| t.len() > 0 && t[0] == name
}

/// The tags with this name, in order.
pub open spec fn named(tags: Seq<Seq<Seq<char>>>, name: Seq<char>) -> Seq<Seq<Seq<char>>> {
    tags.filter(by_name(name))
}

/// The tags with a name in two lists are those in the first, and then those in the second.
pub proof fn lemma_named_in_both(
    a: Seq<Seq<Seq<char>>>,
    b: Seq<Seq<Seq<char>>>,
    name: Seq<char>,
)
    ensures
        named(a + b, name) == named(a, name) + named(b, name),
{
    Seq::filter_distributes_over_add(a, b, by_name(name));
}

/// Where all tags have the name, all are found.
pub proof fn lemma_all_named(tags: Seq<Seq<Seq<char>>>, name: Seq<char>)
    requires
        forall|i: int| 0 <= i < tags.len() ==> (#[trigger] tags[i]).len() > 0 && tags[i][0] == name,
    ensures
        named(tags, name) == tags,
    decreases tags.len(),
{
    reveal(Seq::filter);
    if tags.len() > 0 {
        let t = tags.drop_last();
        assert forall|i: int| 0 <= i < t.len() implies (#[trigger] t[i]).len() > 0 && t[i][0]
            == name by {
            assert(t[i] == tags[i]);
        }
        lemma_all_named(t, name);
        assert(tags[tags.len() - 1] == tags.last());
        assert(t.push(tags.last()) =~= tags);
    } else {
        assert(named(tags, name) =~= tags);
    }
}

/// Where no tag has the name, none is found.
pub proof fn lemma_none_named(tags: Seq<Seq<Seq<char>>>, name: Seq<char>)
    requires
        forall|i: int| 0 <= i < tags.len() ==> (#[trigger] tags[i]).len() > 0 && tags[i][0] != name,
    ensures
        named(tags, name) == Seq::<Seq<Seq<char>>>::empty(),
    decreases tags.len(),
{
    reveal(Seq::filter);
    if tags.len() > 0 {
        let t = tags.drop_last();
        assert forall|i: int| 0 <= i < t.len() implies (#[trigger] t[i]).len() > 0 && t[i][0]
            != name by {
            assert(t[i] == tags[i]);
        }
        lemma_none_named(t, name);
        assert(tags[tags.len() - 1] == tags.last());
    } else {
        assert(named(tags, name) =~= Seq::<Seq<Seq<char>>>::empty());
    }
}

/// The tags that are found by a name are those of the list that have it.
pub proof fn lemma_named_tags(tags: Seq<Seq<Seq<char>>>, name: Seq<char>, t: Seq<Seq<char>>)
    ensures
        named(tags, name).contains(t) <==> tags.contains(t) && t.len() > 0 && t[0] == name,
{
    let keep = by_name(name);
    let found = named(tags, name);
    if found.contains(t) {
        let i = choose|i: int| 0 <= i < found.len() && found[i] == t;
        tags.lemma_filter_pred(keep, i);
        tags.lemma_filter_contains_rev(keep, t);
    }
    if tags.contains(t) && t.len() > 0 && t[0] == name {
        let i = choose|i: int| 0 <= i < tags.len() && tags[i] == t;
        tags.lemma_filter_contains(keep, i);
    }
}

/// Signing a list with one recipient keeps the whole list, unless the recipient is the author, who is
/// then not among the recipients.
pub proof fn lemma_signing_keeps_the_recipient(
    tags: Seq<Seq<Seq<char>>>,
    recipient: Seq<char>,
    author: Seq<char>,
)
    requires
        named(tags, "p"@) == seq![seq!["p"@, recipient]],
    ensures
        recipient != author ==> event::signed_tags(tags, author) == tags,
        recipient == author ==> named(event::signed_tags(tags, author), "p"@).len() == 0,
{
    let found = named(tags, "p"@);
    assert forall|t: Seq<Seq<char>>| #[trigger] found.contains(t) implies t == seq![
        "p"@,
        recipient,
    ] by {
        let i = choose|i: int| 0 <= i < found.len() && found[i] == t;
        assert(i == 0);
    }
    if recipient != author {
        assert forall|i: int| 0 <= i < tags.len() implies !event::is_recipient_tag(
            #[trigger] tags[i],
            author,
        ) by {
            if event::is_recipient_tag(tags[i], author) {
                assert(tags.contains(tags[i]));
                lemma_named_tags(tags, "p"@, tags[i]);
                assert(tags[i][1] == recipient);
            }
        }
        lemma_signing_keeps_all(tags, author);
    } else {
        let kept = event::signed_tags(tags, author);
        let left = named(kept, "p"@);
        if left.len() > 0 {
            let t = left[0];
            assert(left.contains(t));
            lemma_named_tags(kept, "p"@, t);
            crate::jobs::lemma_signed_tags(tags, author, t);
            lemma_named_tags(tags, "p"@, t);
            assert(t[1] == recipient);
        }
    }
}

/// Signing takes away tags that refer to the author, and no tag with another name.
pub proof fn lemma_signing_keeps_names(
    tags: Seq<Seq<Seq<char>>>,
    author: Seq<char>,
    name: Seq<char>,
)
    requires
        name != "p"@,
    ensures
        named(event::signed_tags(tags, author), name) == named(tags, name),
    decreases tags.len(),
{
    reveal(Seq::filter);
    let kept = event::signed_tags(tags, author);
    if tags.len() > 0 {
        let t = tags.drop_last();
        lemma_signing_keeps_names(t, author, name);
        let last = tags.last();
        let before = event::signed_tags(t, author);
        if event::is_recipient_tag(last, author) {
            assert(kept == before);
            assert(named(tags, name) == named(t, name));
        } else {
            assert(kept == before.push(last));
            assert(before.push(last).drop_last() =~= before);
        }
    } else {
        assert(kept =~= tags);
    }
}

/// Signing takes away no tag at all where none refers to the author.
pub proof fn lemma_signing_keeps_all(tags: Seq<Seq<Seq<char>>>, author: Seq<char>)
    requires
        forall|i: int| 0 <= i < tags.len() ==> !event::is_recipient_tag(#[trigger] tags[i], author),
    ensures
        event::signed_tags(tags, author) == tags,
    decreases tags.len(),
{
    reveal(Seq::filter);
    if tags.len() > 0 {
        let t = tags.drop_last();
        assert forall|i: int| 0 <= i < t.len() implies !event::is_recipient_tag(
            #[trigger] t[i],
            author,
        ) by {
            assert(t[i] == tags[i]);
        }
        lemma_signing_keeps_all(t, author);
        assert(!event::is_recipient_tag(tags[tags.len() - 1], author));
        assert(t.push(tags.last()) =~= tags);
    } else {
        assert(event::signed_tags(tags, author) =~= tags);
    }
}

/// Whether the name of `a` comes no later in the list of names than that of `b`.
pub open spec fn comes_first(names: Seq<Seq<char>>, a: Seq<Seq<char>>, b: Seq<Seq<char>>) -> bool {
    forall|n: int, m: int|
        0 <= n < names.len() && 0 <= m < names.len() && #[trigger] names[n] == a[0]
            && #[trigger] names[m] == b[0] ==> n <= m
}

/// Whether the names of the tags come in the order of this list.
pub open spec fn in_order(names: Seq<Seq<char>>, tags: Seq<Seq<Seq<char>>>) -> bool {
    forall|i: int, j: int|
        0 <= i < j < tags.len() ==> comes_first(names, #[trigger] tags[i], #[trigger] tags[j])
}

/// Signing keeps the order of the tags.
pub proof fn lemma_signing_keeps_order(
    names: Seq<Seq<char>>,
    tags: Seq<Seq<Seq<char>>>,
    author: Seq<char>,
)
    requires
        in_order(names, tags),
    ensures
        in_order(names, event::signed_tags(tags, author)),
    decreases tags.len(),
{
    reveal(Seq::filter);
    if tags.len() > 0 {
        let t = tags.drop_last();
        assert forall|i: int, j: int| 0 <= i < j < t.len() implies comes_first(
            names,
            #[trigger] t[i],
            #[trigger] t[j],
        ) by {
            assert(t[i] == tags[i] && t[j] == tags[j]);
        }
        lemma_signing_keeps_order(names, t, author);
        let before = event::signed_tags(t, author);
        let kept = event::signed_tags(tags, author);
        let last = tags.last();
        if !event::is_recipient_tag(last, author) {
            assert(kept == before.push(last));
            assert forall|i: int, j: int| 0 <= i < j < kept.len() implies comes_first(
                names,
                #[trigger] kept[i],
                #[trigger] kept[j],
            ) by {
                assert(kept[i] == before[i]);
                if j < before.len() {
                    assert(kept[j] == before[j]);
                } else {
                    assert(before.contains(before[i]));
                    crate::jobs::lemma_signed_tags(t, author, before[i]);
                    let k = choose|k: int| 0 <= k < t.len() && t[k] == before[i];
                    assert(tags[k] == before[i]);
                    assert(tags[tags.len() - 1] == last);
                }
            }
        }
    }
}

/// The values of the members with this name, in order.
pub open spec fn values_of(members: Seq<json::MemberView>, name: Seq<char>) -> Seq<Seq<char>>
    decreases members.len(),
{
    if members.len() == 0 {
        seq![]
    } else if members.last().name == name {
        values_of(members.drop_last(), name).push(members.last().value)
    } else {
        values_of(members.drop_last(), name)
    }
}

/// The text of a member: its name between quotes, a colon and its value.
pub open spec fn member_text(name: Seq<char>, value: Seq<char>) -> Seq<char> {
    seq!['"'] + name + seq!['"', ':'] + value
}

/// Every member of an object is written into its text, between the braces.
pub proof fn lemma_members_are_written(members: Seq<json::MemberView>, i: int)
    requires
        0 <= i < members.len(),
    ensures
        search::contains_text(
            json::object_text(members),
            member_text(members[i].name, members[i].value),
        ),
        json::object_text(members)[0] == '{',
        json::object_text(members).last() == '}',
{
    lemma_members_text(members, i);
    let m = member_text(members[i].name, members[i].value);
    let inner = json::members_text(members);
    let all = json::object_text(members);
    let j = choose|j: int| search::occurs_at(inner, m, j);
    assert(all.subrange(j + 1, j + 1 + m.len()) =~= inner.subrange(j, j + m.len()));
    assert(search::occurs_at(all, m, j + 1));
}

proof fn lemma_members_text(members: Seq<json::MemberView>, i: int)
    requires
        0 <= i < members.len(),
    ensures
        search::contains_text(
            json::members_text(members),
            member_text(members[i].name, members[i].value),
        ),
    decreases members.len(),
{
    reveal_strlit("\":");
    let m = member_text(members[i].name, members[i].value);
    let all = json::members_text(members);
    let last = members.last();
    let own = seq!['"'] + last.name + "\":"@ + last.value;
    assert("\":"@ =~= seq!['"', ':']);
    if i == members.len() - 1 {
        assert(members[i] == last);
        assert(own =~= m);
        let at = all.len() - own.len();
        assert(all.subrange(at, at + m.len()) =~= m);
        assert(search::occurs_at(all, m, at));
    } else {
        let front = members.drop_last();
        assert(front[i] == members[i]);
        lemma_members_text(front, i);
        let t = json::members_text(front);
        let j = choose|j: int| search::occurs_at(t, m, j);
        assert(all.subrange(j, j + m.len()) =~= t.subrange(j, j + m.len()));
        assert(search::occurs_at(all, m, j));
    }
}

} // verus!
