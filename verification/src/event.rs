//! Nostr keys and events, as plain text and numbers, and what the `nostr` crate computes on them.
//!
//! Keys are hexadecimal text here. Each function that needs the `nostr` crate is a small private
//! wrapper whose contract says what the crate does with it; everything else in the library is
//! proved from those contracts.

use nostr::prelude::{
    nip04, nip44, EventBuilder, EventId, FromBech32, JsonUtil, Keys, Kind, Metadata, Nip19Profile,
    PublicKey, RelayUrl, Signature, Tag, Timestamp, ToBech32,
};
use std::str::FromStr;
use vstd::prelude::*;

use crate::json;
use crate::search;
use crate::text;
use crate::text::same_text;

verus! {

/// A key pair: the secret and the public key, both as 64 hexadecimal digits in small letters.
#[derive(Debug, PartialEq, Eq)]
pub struct WorkerKeys {
    pub secret_key: String,
    pub public_key: String,
}

impl Clone for WorkerKeys {
    fn clone(&self) -> (r: Self)
        ensures
            r == *self,
    {
        WorkerKeys { secret_key: self.secret_key.clone(), public_key: self.public_key.clone() }
    }
}

/// A signed event.
#[derive(Debug, PartialEq, Eq)]
pub struct Event {
    /// The event's identifier, in hexadecimal.
    pub id: String,
    /// The author's public key, in hexadecimal.
    pub pubkey: String,
    /// When the event was made, in seconds since the epoch.
    pub created_at: u64,
    pub kind: u16,
    pub tags: Vec<Vec<String>>,
    pub content: String,
    /// The author's signature, in hexadecimal.
    pub sig: String,
}

// ---------------------------------------------------------------------------------------------
// Keys
// ---------------------------------------------------------------------------------------------

/// What `Keys::parse` makes of a text: the secret and the public key in hexadecimal.
pub uninterp spec fn parsed_keys(key: Seq<char>) -> Option<(Seq<char>, Seq<char>)>;

/// The public key of the key that a text writes down.
pub open spec fn public_key_of(key: Seq<char>) -> Seq<char> {
    match parsed_keys(key) {
        Some((_, public_key)) => public_key,
        None => seq![],
    }
}

/// Whether a text writes down a secret key that belongs to `public_key`.
pub open spec fn is_secret_of(key: Seq<char>, public_key: Seq<char>) -> bool {
    parsed_keys(key) is Some && public_key_of(key) == public_key
}

/// Whether `s` is 64 hexadecimal digits.
pub open spec fn is_key_hex(s: Seq<char>) -> bool {
    s.len() == 64 && search::all_hex_digits(s)
}

/// Whether `s` is a key as raw hexadecimal: 64 digits, in small letters.
pub open spec fn is_raw_hex(s: Seq<char>) -> bool {
    is_key_hex(s) && search::lowercase(s) == s
}

impl WorkerKeys {
    /// Whether both keys are raw hexadecimal and belong together: the secret key is valid, and the
    /// public key is its.
    pub open spec fn wf(self) -> bool {
        &&& is_raw_hex(self.secret_key@)
        &&& is_raw_hex(self.public_key@)
        &&& parsed_keys(self.secret_key@) == Some((self.secret_key@, self.public_key@))
    }
}

/// Calls `Keys::parse`, which reads a secret key in hexadecimal or as an `nsec`, and derives its
/// public key; the result depends on the text alone. Both keys are handed out as 64 hexadecimal
/// digits in small letters, and the secret key in that form reads back as the same pair.
#[verifier::external_body]
pub(crate) fn parse_keys(key: &str) -> (r: Option<WorkerKeys>)
    ensures
        match r {
            Some(k) => {
                &&& parsed_keys(key@) == Some((k.secret_key@, k.public_key@))
                &&& k.wf()
            },
            None => parsed_keys(key@) is None,
        },
{
    let keys = Keys::parse(key).ok()?;
    Some(
        WorkerKeys {
            secret_key: keys.secret_key().to_secret_hex(),
            public_key: keys.public_key().to_hex(),
        },
    )
}

/// Calls `Keys::generate` and writes the new secret key as an `nsec`, which cannot fail. The key is
/// random; what is said of it is that it reads back as a key, and is written without white space.
#[verifier::external_body]
pub(crate) fn generate_nsec() -> (r: String)
    ensures
        parsed_keys(r@) is Some,
        text::trim_spec(r@) == r@,
{
    Keys::generate().secret_key().to_bech32().unwrap_or_default()
}

/// Calls `PublicKey::from_hex`, which accepts exactly 64 hexadecimal digits, and writes the key back
/// in small letters.
#[verifier::external_body]
pub(crate) fn parse_public_key(hex: &str) -> (r: Option<String>)
    ensures
        r is Some <==> is_key_hex(hex@),
        r matches Some(s) ==> s@ == search::lowercase(hex@),
{
    PublicKey::from_hex(hex).ok().map(|key| key.to_hex())
}

// ---------------------------------------------------------------------------------------------
// Encryption
// ---------------------------------------------------------------------------------------------

/// What `nip44::decrypt` makes of `content`, with the receiver's secret key and the sender's public
/// key; `None` where it fails, or where one of the keys is not valid.
pub uninterp spec fn nip44_plaintext(
    secret_key: Seq<char>,
    public_key: Seq<char>,
    content: Seq<char>,
) -> Option<Seq<char>>;

/// What `nip04::decrypt` makes of `content`, with the receiver's secret key and the sender's public
/// key; `None` where it fails, or where one of the keys is not valid.
pub uninterp spec fn nip04_plaintext(
    secret_key: Seq<char>,
    public_key: Seq<char>,
    content: Seq<char>,
) -> Option<Seq<char>>;

/// The longest text that can be encrypted, in bytes.
pub const MAX_PLAINTEXT_BYTES: usize = 65408;

/// How many bytes a text has.
pub open spec fn utf8_len(s: Seq<char>) -> nat {
    vstd::utf8::encode_utf8(s).len()
}

/// Calls `nip44::decrypt`, whose result depends on the two keys and the content alone.
#[verifier::external_body]
pub(crate) fn nip44_decrypt(secret_key: &str, public_key: &str, content: &str) -> (r: Option<
    String,
>)
    ensures
        text::optional(r) == nip44_plaintext(secret_key@, public_key@, content@),
{
    let keys = Keys::parse(secret_key).ok()?;
    let sender = PublicKey::from_hex(public_key).ok()?;
    nip44::decrypt(keys.secret_key(), &sender, content.as_bytes()).ok()
}

/// Calls `nip04::decrypt`, whose result depends on the two keys and the content alone.
#[verifier::external_body]
pub(crate) fn nip04_decrypt(secret_key: &str, public_key: &str, content: &str) -> (r: Option<
    String,
>)
    ensures
        text::optional(r) == nip04_plaintext(secret_key@, public_key@, content@),
{
    let keys = Keys::parse(secret_key).ok()?;
    let sender = PublicKey::from_hex(public_key).ok()?;
    nip04::decrypt(keys.secret_key(), &sender, content.to_string()).ok()
}

/// Calls `nip44::encrypt` with version 2 of the scheme. Its nonce is random, so the result has no
/// name. It fails for an empty text and for one of more than `MAX_PLAINTEXT_BYTES` bytes, and
/// otherwise succeeds for a valid secret key and the public key of a valid one. What it makes of a
/// text is decrypted to that text by whoever has the secret key of the receiver, with the public key
/// of the sender.
#[verifier::external_body]
pub(crate) fn nip44_encrypt(secret_key: &str, public_key: &str, plaintext: &str) -> (r: Option<
    String,
>)
    ensures
        r is Some ==> parsed_keys(secret_key@) is Some && 0 < utf8_len(plaintext@)
            <= MAX_PLAINTEXT_BYTES,
        forall|receiver: Seq<char>|
            parsed_keys(secret_key@) is Some && #[trigger] is_secret_of(receiver, public_key@) && 0
                < utf8_len(plaintext@) <= MAX_PLAINTEXT_BYTES ==> r is Some,
        r matches Some(content) ==> forall|receiver: Seq<char>| #[trigger]
            is_secret_of(receiver, public_key@) ==> nip44_plaintext(
                receiver,
                public_key_of(secret_key@),
                content@,
            ) == Some(plaintext@),
{
    let keys = Keys::parse(secret_key).ok()?;
    let receiver = PublicKey::from_hex(public_key).ok()?;
    nip44::encrypt(keys.secret_key(), &receiver, plaintext.as_bytes(), nip44::Version::V2).ok()
}

// ---------------------------------------------------------------------------------------------
// Events
// ---------------------------------------------------------------------------------------------

/// Whether a tag refers to `pubkey`.
pub open spec fn is_recipient_tag(tag: Seq<Seq<char>>, pubkey: Seq<char>) -> bool {
    tag.len() >= 2 && tag[0] == "p"@ && tag[1] == pubkey
}

/// The tags that an event keeps: all but those that refer to its author.
pub open spec fn signed_tags(tags: Seq<Seq<Seq<char>>>, pubkey: Seq<char>) -> Seq<Seq<Seq<char>>> {
    tags.filter(|tag: Seq<Seq<char>>| !is_recipient_tag(tag, pubkey))
}

/// Whether every tag has a name.
pub open spec fn tags_are_named(tags: Seq<Seq<Seq<char>>>) -> bool {
    forall|i: int| 0 <= i < tags.len() ==> (#[trigger] tags[i]).len() > 0
}

/// Whether `nostr::Event::verify` accepts the event with these fields: its identifier is the one that
/// belongs to the other fields, and its signature is one of that identifier by the author. Where a
/// field is not valid there is no such event.
pub uninterp spec fn event_verifies(
    id: Seq<char>,
    pubkey: Seq<char>,
    created_at: u64,
    kind: u16,
    tags: Seq<Seq<Seq<char>>>,
    content: Seq<char>,
    sig: Seq<char>,
) -> bool;

/// Whether an event is valid: its identifier and its signature belong to what it says.
pub open spec fn is_valid_event(e: Event) -> bool {
    event_verifies(
        e.id@,
        e.pubkey@,
        e.created_at,
        e.kind,
        e.tags.deep_view(),
        e.content@,
        e.sig@,
    )
}

/// Calls `nostr::Event::new` and `nostr::Event::verify`, whose result depends on the event's fields
/// alone. The fields are read with `EventId::from_hex`, `PublicKey::from_hex`, `Tag::parse` and
/// `Signature::from_str`; where one of them fails, the event is not valid.
#[verifier::external_body]
fn verify_event(e: &Event) -> (r: bool)
    ensures
        r == event_verifies(
            e.id@,
            e.pubkey@,
            e.created_at,
            e.kind,
            e.tags.deep_view(),
            e.content@,
            e.sig@,
        ),
{
    let id = EventId::from_hex(&e.id);
    let key = PublicKey::from_hex(&e.pubkey);
    let tags = e.tags.iter().map(Tag::parse).collect::<Result<Vec<Tag>, _>>();
    let (Ok(id), Ok(key), Ok(tags), Ok(sig)) = (id, key, tags, Signature::from_str(&e.sig)) else {
        return false;
    };
    let at = Timestamp::from_secs(e.created_at);
    nostr::Event::new(id, key, at, Kind::from(e.kind), tags, &e.content, sig).verify().is_ok()
}

/// Tests whether an event is valid: whether its identifier and its signature belong to what it says.
pub fn event_is_valid(e: &Event) -> (r: bool)
    ensures
        r == is_valid_event(*e),
{
    verify_event(e)
}

/// Whether `e` is an event that the author with `secret_key` has signed, with this kind, content and
/// tags.
pub open spec fn is_signed_event(
    e: Event,
    secret_key: Seq<char>,
    kind: u16,
    content: Seq<char>,
    tags: Seq<Seq<Seq<char>>>,
) -> bool {
    &&& e.pubkey@ == public_key_of(secret_key)
    &&& e.kind == kind
    &&& e.content@ == content
    &&& e.tags.deep_view() == signed_tags(tags, e.pubkey@)
    &&& is_key_hex(e.id@)
    &&& is_valid_event(e)
}

/// Calls `Tag::parse` for each tag, and then `EventBuilder::new`, `EventBuilder::tags` and
/// `EventBuilder::sign_with_keys`. A tag has to have a name, and the secret key has to be valid;
/// signing then succeeds. The event has the given kind and content, the author's public key, and the
/// given tags but for those that refer to its author, which the builder leaves out. `Event::verify`
/// accepts it: the identifier belongs to what the event says, and the signature is the author's. The
/// time of the event is that of the clock, and the signature depends on chance: which they are is not
/// said.
#[verifier::external_body]
pub(crate) fn sign_event(
    secret_key: &str,
    kind: u16,
    content: &str,
    tags: &Vec<Vec<String>>,
) -> (r: Option<Event>)
    ensures
        r is Some <==> (parsed_keys(secret_key@) is Some && tags_are_named(tags.deep_view())),
        r matches Some(e) ==> is_signed_event(e, secret_key@, kind, content@, tags.deep_view()),
{
    let keys = Keys::parse(secret_key).ok()?;
    let parsed = tags.iter().map(Tag::parse).collect::<Result<Vec<Tag>, _>>().ok()?;
    let builder = EventBuilder::new(Kind::Custom(kind), content).tags(parsed);
    let e = builder.sign_with_keys(&keys).ok()?;
    Some(
        Event {
            id: e.id.to_hex(),
            pubkey: e.pubkey.to_hex(),
            created_at: e.created_at.as_secs(),
            kind: e.kind.as_u16(),
            tags: e.tags.iter().map(|t| t.as_slice().to_vec()).collect(),
            content: e.content,
            sig: e.sig.to_string(),
        },
    )
}

/// The metadata of a profile as JSON: a name, a display name and a description.
pub open spec fn metadata_json(
    name: Seq<char>,
    display_name: Seq<char>,
    about: Seq<char>,
) -> Seq<char> {
    json::object_text(
        seq![
            json::member("name"@, json::json_string(name)),
            json::member("display_name"@, json::json_string(display_name)),
            json::member("about"@, json::json_string(about)),
        ],
    )
}

/// Fills a `Metadata` with a name, a display name and a description, and calls `Metadata::as_json`,
/// which writes the fields that are filled, in this order, and no others.
#[verifier::external_body]
pub(crate) fn profile_json(name: &str, display_name: &str, about: &str) -> (r: String)
    ensures
        r@ == metadata_json(name@, display_name@, about@),
{
    Metadata::new().name(name).display_name(display_name).about(about).as_json()
}

// ---------------------------------------------------------------------------------------------
// Profiles
// ---------------------------------------------------------------------------------------------

/// The text of the relay URL that `RelayUrl::parse` reads from a text; `None` where it accepts none.
pub uninterp spec fn relay_text(url: Seq<char>) -> Option<Seq<char>>;

/// Calls `RelayUrl::parse` and `RelayUrl::as_str`, whose results depend on the text alone.
#[verifier::external_body]
pub(crate) fn parse_relay_url(url: &str) -> (r: Option<String>)
    ensures
        text::optional(r) == relay_text(url@),
{
    RelayUrl::parse(url).ok().map(|u| u.as_str().to_string())
}

/// Whether a text is the URL of a relay.
pub open spec fn is_relay_url(url: Seq<char>) -> bool {
    relay_text(url) is Some
}

/// Whether every text is the URL of a relay.
pub open spec fn are_relay_urls(relays: Seq<Seq<char>>) -> bool {
    forall|i: int| 0 <= i < relays.len() ==> is_relay_url(#[trigger] relays[i])
}

/// The URLs that are read from texts.
pub open spec fn relay_texts(relays: Seq<Seq<char>>) -> Seq<Seq<char>> {
    relays.filter_map(|url: Seq<char>| relay_text(url))
}

/// How many bytes the public key and the relays of a profile take up: a type, a length and a value
/// for each.
pub open spec fn profile_size(relays: Seq<Seq<char>>) -> nat
    decreases relays.len(),
{
    if relays.len() == 0 {
        34
    } else {
        profile_size(relays.drop_last()) + 2 + utf8_len(relays.last())
    }
}

/// How many bytes a profile may take up.
pub const MAX_PROFILE_BYTES: usize = 630;

/// How many bytes the URL of a relay may have, so that a profile can state its length.
pub const MAX_RELAY_BYTES: usize = 255;

/// Whether the length of every URL can be stated.
pub open spec fn lengths_fit(relays: Seq<Seq<char>>) -> bool {
    forall|i: int| 0 <= i < relays.len() ==> utf8_len(#[trigger] relays[i]) <= MAX_RELAY_BYTES
}

/// What a profile refers to: a public key, and relays.
pub struct ProfileView {
    pub public_key: Seq<char>,
    pub relays: Seq<Seq<char>>,
}

/// A profile: a public key in hexadecimal, and the relays where its owner can be found.
#[derive(Debug, PartialEq, Eq)]
pub struct Profile {
    pub public_key: String,
    pub relays: Vec<String>,
}

impl View for Profile {
    type V = ProfileView;

    open spec fn view(&self) -> ProfileView {
        ProfileView { public_key: self.public_key@, relays: self.relays.deep_view() }
    }
}

/// What `Nip19Profile::to_bech32` writes for a public key and relays; `None` where it fails, or
/// where the key or a relay is not valid.
pub uninterp spec fn nprofile_text(
    public_key: Seq<char>,
    relays: Seq<Seq<char>>,
) -> Option<Seq<char>>;

/// What `Nip19Profile::from_bech32` reads from a text; `None` where it fails.
pub uninterp spec fn nprofile_content(text: Seq<char>) -> Option<ProfileView>;

/// Calls `Nip19Profile::new` and `Nip19Profile::to_bech32`, whose result depends on the public key
/// and the relays alone. It succeeds for a valid key and valid relays that take up no more than
/// `MAX_PROFILE_BYTES` bytes, which is what fits into the code. The text begins with `nprofile1`. As
/// long as no URL has more than `MAX_RELAY_BYTES` bytes, `Nip19Profile::from_bech32` reads the key back
/// from it, in small letters, and those of the URLs that are accepted when they are read again, in
/// order; what it reads where a URL is longer is not said.
#[verifier::external_body]
pub(crate) fn encode_nprofile(public_key: &str, relays: &Vec<String>) -> (r: Option<String>)
    ensures
        text::optional(r) == nprofile_text(public_key@, relays.deep_view()),
        r is Some <==> (is_key_hex(public_key@) && are_relay_urls(relays.deep_view())
            && profile_size(relay_texts(relays.deep_view())) <= MAX_PROFILE_BYTES),
        r matches Some(s) ==> "nprofile1"@.is_prefix_of(s@),
        r matches Some(s) ==> (lengths_fit(relay_texts(relays.deep_view())) ==> nprofile_content(s@)
            == Some(
            (ProfileView {
                public_key: search::lowercase(public_key@),
                relays: relay_texts(relay_texts(relays.deep_view())),
            }),
        )),
{
    let key = PublicKey::from_hex(public_key).ok()?;
    let parsed = relays.iter().map(|url| RelayUrl::parse(url)).collect::<Result<Vec<_>, _>>();
    Nip19Profile::new(key, parsed.ok()?).to_bech32().ok()
}

/// Calls `Nip19Profile::from_bech32`, whose result depends on the text alone.
#[verifier::external_body]
pub(crate) fn decode_nprofile(text: &str) -> (r: Option<Profile>)
    ensures
        r is Some <==> nprofile_content(text@) is Some,
        r matches Some(p) ==> nprofile_content(text@) == Some(p@),
{
    let profile = Nip19Profile::from_bech32(text).ok()?;
    Some(
        Profile {
            public_key: profile.public_key.to_hex(),
            relays: profile.relays.iter().map(|u| u.as_str().to_string()).collect(),
        },
    )
}

/// URLs that are written as they are read are kept as they are.
pub proof fn lemma_relay_texts_keep(relays: Seq<Seq<char>>)
    requires
        forall|i: int|
            0 <= i < relays.len() ==> relay_text(#[trigger] relays[i]) == Some(relays[i]),
    ensures
        relay_texts(relays) == relays,
    decreases relays.len(),
{
    if relays.len() > 0 {
        let t = relays.drop_last();
        assert forall|i: int| 0 <= i < t.len() implies relay_text(#[trigger] t[i]) == Some(t[i]) by {
            assert(t[i] == relays[i]);
        }
        lemma_relay_texts_keep(t);
        assert(relays[relays.len() - 1] == relays.last());
        assert(relays =~= t.push(relays.last()));
    } else {
        assert(relay_texts(relays) =~= relays);
    }
}

/// Whether a relay is read again from the way it is written, and the length of that can be stated.
pub open spec fn is_stable_relay(url: Seq<char>) -> bool {
    &&& relay_text(url) matches Some(t)
    &&& relay_text(t) == Some(t)
    &&& utf8_len(t) <= MAX_RELAY_BYTES
}

/// What is read from stable relays is written as it is read, and the lengths can be stated.
pub proof fn lemma_stable_relay_texts(relays: Seq<Seq<char>>)
    requires
        forall|i: int| 0 <= i < relays.len() ==> is_stable_relay(#[trigger] relays[i]),
    ensures
        lengths_fit(relay_texts(relays)),
        relay_texts(relay_texts(relays)) == relay_texts(relays),
{
    lemma_stable_texts_keep(relays);
    lemma_relay_texts_keep(relay_texts(relays));
}

proof fn lemma_stable_texts_keep(relays: Seq<Seq<char>>)
    requires
        forall|i: int| 0 <= i < relays.len() ==> is_stable_relay(#[trigger] relays[i]),
    ensures
        forall|i: int|
            0 <= i < relay_texts(relays).len() ==> relay_text(#[trigger] relay_texts(relays)[i])
                == Some(relay_texts(relays)[i]),
        lengths_fit(relay_texts(relays)),
    decreases relays.len(),
{
    let texts = relay_texts(relays);
    if relays.len() > 0 {
        let t = relays.drop_last();
        assert forall|i: int| 0 <= i < t.len() implies is_stable_relay(#[trigger] t[i]) by {
            assert(t[i] == relays[i]);
        }
        lemma_stable_texts_keep(t);
        let read = relay_texts(t);
        let last = relays[relays.len() - 1];
        assert(is_stable_relay(last));
        assert(last == relays.last());
        assert(texts == read.push(relay_text(last)->0));
        assert forall|i: int| 0 <= i < texts.len() implies relay_text(#[trigger] texts[i]) == Some(
            texts[i],
        ) && utf8_len(texts[i]) <= MAX_RELAY_BYTES by {
            if i < read.len() {
                assert(texts[i] == read[i]);
            }
        }
    } else {
        assert(texts.len() == 0);
    }
}

// ---------------------------------------------------------------------------------------------
// Tags
// ---------------------------------------------------------------------------------------------

/// Whether an event is addressed to `pubkey`.
pub open spec fn is_addressed_to(tags: Seq<Seq<Seq<char>>>, pubkey: Seq<char>) -> bool {
    exists|i: int| 0 <= i < tags.len() && is_recipient_tag(#[trigger] tags[i], pubkey)
}

/// Tests whether an event is addressed to a public key.
pub fn event_is_addressed_to(event: &Event, pubkey_hex: &str) -> (r: bool)
    ensures
        r == is_addressed_to(event.tags.deep_view(), pubkey_hex@),
{
    let ghost views = event.tags.deep_view();
    let mut i: usize = 0;
    while i < event.tags.len()
        invariant
            i <= event.tags@.len(),
            views == event.tags.deep_view(),
            forall|j: int| 0 <= j < i ==> !is_recipient_tag(#[trigger] views[j], pubkey_hex@),
        decreases event.tags.len() - i,
    {
        let tag = &event.tags[i];
        assert(views[i as int] == tag.deep_view());
        if tag.len() >= 2 {
            assert(tag.deep_view()[0] == tag@[0]@ && tag.deep_view()[1] == tag@[1]@);
            if same_text(tag[0].as_str(), "p") && same_text(tag[1].as_str(), pubkey_hex) {
                return true;
            }
        }
        i = i + 1;
    }
    false
}

/// An event is addressed to whoever one of its tags names, unless that is the author.
pub proof fn lemma_signed_tags_keep_recipients(
    tags: Seq<Seq<Seq<char>>>,
    author: Seq<char>,
    pubkey: Seq<char>,
)
    requires
        is_addressed_to(tags, pubkey),
        pubkey != author,
    ensures
        is_addressed_to(signed_tags(tags, author), pubkey),
{
    let keep = |tag: Seq<Seq<char>>| !is_recipient_tag(tag, author);
    let i = choose|i: int| 0 <= i < tags.len() && is_recipient_tag(#[trigger] tags[i], pubkey);
    let kept = signed_tags(tags, author);
    assert(kept.contains(tags[i])) by {
        tags.lemma_filter_contains(keep, i);
    }
    let j = choose|j: int| 0 <= j < kept.len() && kept[j] == tags[i];
    assert(is_recipient_tag(kept[j], pubkey));
}

} // verus!
