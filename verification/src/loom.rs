//! Workers: who they are, and how they make themselves known.

use vstd::prelude::*;

use crate::clock;
use crate::config::{copy_prices, copy_software, Config, WorkerPrice, WorkerSoftware};
use crate::event;
use crate::event::{
    decode_nprofile, encode_nprofile, generate_nsec, parse_keys, parse_public_key,
    parse_relay_url, profile_json, sign_event, Event, Profile, WorkerKeys,
};
use crate::jobs::push_tag;
use crate::json;
use crate::json::{array, ObjectWriter};
use crate::number;
use crate::number::decimal_text;
use crate::paths;
use crate::paths::join_path;
use crate::text;
use crate::text::{copy_list, trim};

verus! {

/// The kind of an event that advertises a worker.
pub const WORKER_ADVERTISEMENT_KIND: u16 = 10100;

/// The kind of an event that describes a profile.
pub const PROFILE_METADATA_KIND: u16 = 0;

/// A worker: its slot in the pool, its keys, and the public key that it is addressed by.
#[derive(Debug, PartialEq, Eq)]
pub struct WorkerIdentity {
    pub slot: usize,
    pub keys: WorkerKeys,
    pub pubkey: String,
}

impl Clone for WorkerIdentity {
    fn clone(&self) -> (r: Self)
        ensures
            r == *self,
    {
        WorkerIdentity {
            slot: self.slot,
            keys: self.keys.clone(),
            pubkey: self.pubkey.clone(),
        }
    }
}

impl WorkerIdentity {
    /// Whether the keys belong together, and the worker is addressed by its own public key.
    pub open spec fn wf(self) -> bool {
        self.keys.wf() && self.pubkey@ == self.keys.public_key@
    }
}

/// Why a worker cannot be set up or made known.
#[derive(Debug, PartialEq, Eq)]
pub enum LoomError {
    /// The stored key of a slot is not a key.
    ParseKey { slot: usize },
    /// A relay is not a URL of a relay.
    InvalidRelay { relay: String },
    /// The profile could not be encoded.
    EncodeProfile,
    /// The profile metadata could not be signed.
    SignMetadata,
    /// The advertisement could not be signed.
    SignAdvertisement,
    /// The public key of a worker is not one.
    InvalidPubkey { slot: usize },
}

/// What an error says.
pub open spec fn loom_error_text(e: LoomError) -> Seq<char> {
    match e {
        LoomError::ParseKey { slot } => "Failed to parse worker key for slot "@ + number::decimal(
            slot as nat,
        ),
        LoomError::InvalidRelay { relay } => "Invalid relay URL for worker nprofile: "@ + relay@,
        LoomError::EncodeProfile => "Failed to encode worker nprofile"@,
        LoomError::SignMetadata => "Failed to sign worker profile metadata"@,
        LoomError::SignAdvertisement => "Failed to sign worker advertisement"@,
        LoomError::InvalidPubkey { slot } => "Invalid worker pubkey for slot "@ + number::decimal(
            slot as nat,
        ),
    }
}

impl LoomError {
    /// The error in words.
    pub fn message(&self) -> (r: String)
        ensures
            r@ == loom_error_text(*self),
    {
        match self {
            LoomError::ParseKey { slot } => {
                let mut r: String = "Failed to parse worker key for slot ".to_string();
                r.append(decimal_text(*slot as u64).as_str());
                r
            },
            LoomError::InvalidRelay { relay } => {
                let mut r: String = "Invalid relay URL for worker nprofile: ".to_string();
                r.append(relay.as_str());
                r
            },
            LoomError::EncodeProfile => "Failed to encode worker nprofile".to_string(),
            LoomError::SignMetadata => "Failed to sign worker profile metadata".to_string(),
            LoomError::SignAdvertisement => "Failed to sign worker advertisement".to_string(),
            LoomError::InvalidPubkey { slot } => {
                let mut r: String = "Invalid worker pubkey for slot ".to_string();
                r.append(decimal_text(*slot as u64).as_str());
                r
            },
        }
    }
}

// ---------------------------------------------------------------------------------------------
// Runtime configuration
// ---------------------------------------------------------------------------------------------

/// What a worker is told about its work.
#[derive(Debug)]
pub struct WorkerRuntimeConfig {
    pub relays: Vec<String>,
    pub software: Vec<WorkerSoftware>,
    pub prices: Vec<WorkerPrice>,
    pub min_duration: u64,
    pub max_duration: u64,
    pub act_path: String,
    pub ngit_path: String,
    pub git_remote_nostr_path: String,
    pub work_dir: String,
    pub timeout_seconds: u64,
    pub http_port: u16,
    pub default_shell: String,
    pub blossom_servers: Vec<String>,
    pub cashu_mints: Vec<String>,
}

/// A piece of software as JSON.
pub open spec fn software_json(s: WorkerSoftware) -> Seq<char> {
    json::object_text(
        seq![
            json::member("name"@, json::json_string(s.name@)),
            json::member("version"@, json::json_string(s.version@)),
            json::member("path"@, json::json_string(s.path@)),
        ],
    )
}

/// A price as JSON.
pub open spec fn price_json(p: WorkerPrice) -> Seq<char> {
    json::object_text(
        seq![
            json::member("mint_url"@, json::json_string(p.mint_url@)),
            json::member("price_per_second"@, json::json_string(p.price_per_second@)),
            json::member("unit"@, json::json_string(p.unit@)),
        ],
    )
}

/// The JSON members of a runtime configuration.
pub open spec fn runtime_members(c: WorkerRuntimeConfig) -> Seq<json::MemberView> {
    seq![
        json::member("relays"@, json::strings_text(c.relays.deep_view())),
        json::member(
            "software"@,
            json::array_text(c.software@.map_values(|s: WorkerSoftware| software_json(s))),
        ),
        json::member(
            "prices"@,
            json::array_text(c.prices@.map_values(|p: WorkerPrice| price_json(p))),
        ),
        json::member("min_duration"@, number::decimal(c.min_duration as nat)),
        json::member("max_duration"@, number::decimal(c.max_duration as nat)),
        json::member("act_path"@, json::json_string(c.act_path@)),
        json::member("ngit_path"@, json::json_string(c.ngit_path@)),
        json::member("git_remote_nostr_path"@, json::json_string(c.git_remote_nostr_path@)),
        json::member("work_dir"@, json::json_string(c.work_dir@)),
        json::member("timeout_seconds"@, number::decimal(c.timeout_seconds as nat)),
        json::member("http_port"@, number::decimal(c.http_port as nat)),
        json::member("default_shell"@, json::json_string(c.default_shell@)),
        json::member("blossom_servers"@, json::strings_text(c.blossom_servers.deep_view())),
        json::member("cashu_mints"@, json::strings_text(c.cashu_mints.deep_view())),
    ]
}

fn software_text(s: &WorkerSoftware) -> (r: String)
    ensures
        r@ == software_json(*s),
{
    let mut w = ObjectWriter::new();
    w.string("name", s.name.as_str());
    w.string("version", s.version.as_str());
    w.string("path", s.path.as_str());
    assert(w.members@ =~= seq![
        json::member("name"@, json::json_string(s.name@)),
        json::member("version"@, json::json_string(s.version@)),
        json::member("path"@, json::json_string(s.path@)),
    ]);
    w.finish()
}

fn price_text(p: &WorkerPrice) -> (r: String)
    ensures
        r@ == price_json(*p),
{
    let mut w = ObjectWriter::new();
    w.string("mint_url", p.mint_url.as_str());
    w.string("price_per_second", p.price_per_second.as_str());
    w.string("unit", p.unit.as_str());
    assert(w.members@ =~= seq![
        json::member("mint_url"@, json::json_string(p.mint_url@)),
        json::member("price_per_second"@, json::json_string(p.price_per_second@)),
        json::member("unit"@, json::json_string(p.unit@)),
    ]);
    w.finish()
}

fn software_array(v: &Vec<WorkerSoftware>) -> (r: String)
    ensures
        r@ == json::array_text(v@.map_values(|s: WorkerSoftware| software_json(s))),
{
    let mut items: Vec<String> = Vec::new();
    let mut i: usize = 0;
    while i < v.len()
        invariant
            i <= v@.len(),
            items@.len() == i,
            forall|j: int| 0 <= j < i ==> (#[trigger] items@[j])@ == software_json(v@[j]),
        decreases v.len() - i,
    {
        items.push(software_text(&v[i]));
        i = i + 1;
    }
    assert(items.deep_view() =~= v@.map_values(|s: WorkerSoftware| software_json(s)));
    array(&items)
}

fn price_array(v: &Vec<WorkerPrice>) -> (r: String)
    ensures
        r@ == json::array_text(v@.map_values(|p: WorkerPrice| price_json(p))),
{
    let mut items: Vec<String> = Vec::new();
    let mut i: usize = 0;
    while i < v.len()
        invariant
            i <= v@.len(),
            items@.len() == i,
            forall|j: int| 0 <= j < i ==> (#[trigger] items@[j])@ == price_json(v@[j]),
        decreases v.len() - i,
    {
        items.push(price_text(&v[i]));
        i = i + 1;
    }
    assert(items.deep_view() =~= v@.map_values(|p: WorkerPrice| price_json(p)));
    array(&items)
}

impl WorkerRuntimeConfig {
    /// What workers are told under a configuration.
    pub fn from_config(config: &Config) -> (r: Self)
        ensures
            r.relays@ == config.relays@,
            r.software@ == config.worker_software@,
            r.prices@ == config.worker_prices@,
            r.min_duration == config.worker_min_duration,
            r.max_duration == config.worker_max_duration,
            r.act_path@ == config.worker_act_path@,
            r.ngit_path@ == config.worker_ngit_path@,
            r.git_remote_nostr_path@ == config.worker_git_remote_nostr_path@,
            r.work_dir@ == config.worker_work_dir@,
            r.timeout_seconds == clock::secs_of_duration(config.job_timeout),
            r.http_port == config.worker_http_port,
            r.default_shell@ == config.worker_default_shell@,
            r.blossom_servers@ == config.blossom_servers@,
            r.cashu_mints@ == config.cashu_mints@,
    {
        WorkerRuntimeConfig {
            relays: copy_list(&config.relays),
            software: copy_software(&config.worker_software),
            prices: copy_prices(&config.worker_prices),
            min_duration: config.worker_min_duration,
            max_duration: config.worker_max_duration,
            act_path: config.worker_act_path.clone(),
            ngit_path: config.worker_ngit_path.clone(),
            git_remote_nostr_path: config.worker_git_remote_nostr_path.clone(),
            work_dir: config.worker_work_dir.clone(),
            timeout_seconds: config.job_timeout.as_secs(),
            http_port: config.worker_http_port,
            default_shell: config.worker_default_shell.clone(),
            blossom_servers: copy_list(&config.blossom_servers),
            cashu_mints: copy_list(&config.cashu_mints),
        }
    }

    /// The runtime configuration as JSON.
    pub fn to_json(&self) -> (r: String)
        ensures
            r@ == json::object_text(runtime_members(*self)),
    {
        let mut w = ObjectWriter::new();
        w.strings("relays", &self.relays);
        let software = software_array(&self.software);
        w.raw("software", software.as_str());
        let prices = price_array(&self.prices);
        w.raw("prices", prices.as_str());
        w.number("min_duration", self.min_duration);
        w.number("max_duration", self.max_duration);
        w.string("act_path", self.act_path.as_str());
        w.string("ngit_path", self.ngit_path.as_str());
        w.string("git_remote_nostr_path", self.git_remote_nostr_path.as_str());
        w.string("work_dir", self.work_dir.as_str());
        w.number("timeout_seconds", self.timeout_seconds);
        w.number("http_port", self.http_port as u64);
        w.string("default_shell", self.default_shell.as_str());
        w.strings("blossom_servers", &self.blossom_servers);
        w.strings("cashu_mints", &self.cashu_mints);
        assert(w.members@ =~= runtime_members(*self));
        w.finish()
    }
}

// ---------------------------------------------------------------------------------------------
// Keys
// ---------------------------------------------------------------------------------------------

/// Where the keys of the workers are kept.
#[derive(Debug)]
pub struct WorkerKeyStore {
    pub key_dir: String,
}

/// A worker whose key was loaded, or made.
#[derive(Debug, PartialEq, Eq)]
pub struct LoadedIdentity {
    pub identity: WorkerIdentity,
    /// The key as it has to be stored, where it is new.
    pub to_store: Option<String>,
}

/// The workers of a pool, as far as they could be set up.
#[derive(Debug, PartialEq, Eq)]
pub struct LoadedPool {
    /// The workers of the first slots, in order.
    pub loaded: Vec<LoadedIdentity>,
    /// Why the worker of the next slot could not be set up, where there is one.
    pub error: Option<LoomError>,
}

/// The text of a worker's key: what is stored for the slot or, where nothing is, what has to be.
pub open spec fn key_text(l: LoadedIdentity, stored: Option<Seq<char>>) -> Option<Seq<char>> {
    match stored {
        Some(s) => Some(s),
        None => text::optional(l.to_store),
    }
}

/// Whether `l` is the worker of a slot: it has the key that is stored or, where none is, a key that
/// has to be stored.
pub open spec fn is_loaded(l: LoadedIdentity, slot: usize, stored: Option<Seq<char>>) -> bool {
    &&& l.identity.wf()
    &&& l.identity.slot == slot
    &&& l.to_store is Some <==> stored is None
    &&& key_text(l, stored) matches Some(s) && event::parsed_keys(text::trim_spec(s)) == Some(
        (l.identity.keys.secret_key@, l.identity.keys.public_key@),
    )
}

/// Whether the key that is stored for a slot is not a key.
pub open spec fn is_unusable(slot: usize, stored: Option<Seq<char>>, e: LoomError) -> bool {
    &&& e matches LoomError::ParseKey { slot: n } && n == slot
    &&& stored matches Some(s) && event::parsed_keys(text::trim_spec(s)) is None
}

impl LoadedPool {
    /// The workers that are set up.
    pub fn workers(&self) -> (r: Vec<WorkerIdentity>)
        ensures
            r@ == self.loaded@.map_values(|l: LoadedIdentity| l.identity),
    {
        let mut r: Vec<WorkerIdentity> = Vec::new();
        let mut i: usize = 0;
        while i < self.loaded.len()
            invariant
                i <= self.loaded@.len(),
                r@.len() == i,
                forall|j: int| 0 <= j < i ==> #[trigger] r@[j] == self.loaded@[j].identity,
            decreases self.loaded.len() - i,
        {
            r.push(self.loaded[i].identity.clone());
            i = i + 1;
        }
        assert(r@ =~= self.loaded@.map_values(|l: LoadedIdentity| l.identity));
        r
    }
}

/// A worker keeps its keys: once the key of a new worker is stored, the slot gets the same worker
/// whenever the key is loaded.
pub proof fn lemma_workers_keep_their_keys(
    new: LoadedIdentity,
    slot: usize,
    later: Result<LoadedIdentity, LoomError>,
)
    requires
        is_loaded(new, slot, None),
        match later {
            Ok(l) => is_loaded(l, slot, text::optional(new.to_store)),
            Err(e) => is_unusable(slot, text::optional(new.to_store), e),
        },
    ensures
        later matches Ok(l) && l.to_store is None && l.identity.pubkey@ == new.identity.pubkey@
            && l.identity.keys.secret_key@ == new.identity.keys.secret_key@,
{
}

impl WorkerKeyStore {
    /// The key store below a state directory.
    pub fn new(state_dir: &str) -> (r: Self)
        ensures
            r.key_dir@ == paths::joined_path(state_dir@, "keys"@),
    {
        WorkerKeyStore { key_dir: join_path(state_dir, "keys") }
    }

    /// The file that holds the key of a slot.
    pub fn key_path(&self, slot: usize) -> (r: String)
        ensures
            r@ == paths::joined_path(
                self.key_dir@,
                "slot-"@ + number::decimal(slot as nat) + ".nsec"@,
            ),
    {
        let mut name: String = "slot-".to_string();
        name.append(decimal_text(slot as u64).as_str());
        name.append(".nsec");
        join_path(self.key_dir.as_str(), name.as_str())
    }

    /// Sets up the worker of a slot: with the key that its file holds or, where there is no file,
    /// with a new key, which then has to be stored.
    pub fn load_or_create(&self, slot: usize, stored: Option<&str>) -> (r: Result<
        LoadedIdentity,
        LoomError,
    >)
        ensures
            match r {
                Ok(l) => is_loaded(l, slot, text::optional_str(stored)),
                Err(e) => is_unusable(slot, text::optional_str(stored), e),
            },
    {
        let nsec = match stored {
            Some(s) => trim(s),
            None => generate_nsec(),
        };
        match parse_keys(nsec.as_str()) {
            Some(keys) => {
                let pubkey = keys.public_key.clone();
                let to_store = match stored {
                    Some(_) => None,
                    None => Some(nsec),
                };
                Ok(LoadedIdentity { identity: WorkerIdentity { slot, keys, pubkey }, to_store })
            },
            None => Err(LoomError::ParseKey { slot }),
        }
    }

    /// Sets up the workers of all slots, given what the files of the slots hold. The first key that
    /// is not one ends this: the workers before it are set up, and those behind it are not.
    pub fn load_or_create_all(&self, stored: &Vec<Option<String>>) -> (r: LoadedPool)
        ensures
            r.loaded@.len() <= stored@.len(),
            forall|i: int|
                0 <= i < r.loaded@.len() ==> is_loaded(
                    #[trigger] r.loaded@[i],
                    i as usize,
                    text::optional(stored@[i]),
                ),
            match r.error {
                None => r.loaded@.len() == stored@.len(),
                Some(e) => {
                    &&& r.loaded@.len() < stored@.len()
                    &&& is_unusable(
                        r.loaded@.len() as usize,
                        text::optional(stored@[r.loaded@.len() as int]),
                        e,
                    )
                },
            },
    {
        let mut loaded: Vec<LoadedIdentity> = Vec::new();
        let mut slot: usize = 0;
        while slot < stored.len()
            invariant
                slot <= stored@.len(),
                loaded@.len() == slot,
                forall|i: int|
                    0 <= i < loaded@.len() ==> is_loaded(
                        #[trigger] loaded@[i],
                        i as usize,
                        text::optional(stored@[i]),
                    ),
            decreases stored.len() - slot,
        {
            let key: Option<&str> = match &stored[slot] {
                Some(s) => Some(s.as_str()),
                None => None,
            };
            assert(text::optional_str(key) == text::optional(stored@[slot as int]));
            match self.load_or_create(slot, key) {
                Ok(l) => {
                    loaded.push(l);
                },
                Err(e) => {
                    return LoadedPool { loaded, error: Some(e) };
                },
            }
            slot = slot + 1;
        }
        LoadedPool { loaded, error: None }
    }
}

// ---------------------------------------------------------------------------------------------
// Advertisement
// ---------------------------------------------------------------------------------------------

/// What an advertisement says about a worker.
#[derive(Debug, PartialEq, Eq)]
pub struct AdvertisementContent {
    pub name: String,
    pub description: String,
    pub max_concurrent_jobs: u64,
    pub current_queue_depth: u64,
}

/// The JSON members of an advertisement.
pub open spec fn advertisement_members(
    name: Seq<char>,
    description: Seq<char>,
    max_concurrent_jobs: nat,
    current_queue_depth: nat,
) -> Seq<json::MemberView> {
    seq![
        json::member("name"@, json::json_string(name)),
        json::member("description"@, json::json_string(description)),
        json::member("max_concurrent_jobs"@, number::decimal(max_concurrent_jobs)),
        json::member("current_queue_depth"@, number::decimal(current_queue_depth)),
    ]
}

impl AdvertisementContent {
    /// The content as JSON.
    pub fn to_json(&self) -> (r: String)
        ensures
            r@ == json::object_text(
                advertisement_members(
                    self.name@,
                    self.description@,
                    self.max_concurrent_jobs as nat,
                    self.current_queue_depth as nat,
                ),
            ),
    {
        let mut w = ObjectWriter::new();
        w.string("name", self.name.as_str());
        w.string("description", self.description.as_str());
        w.number("max_concurrent_jobs", self.max_concurrent_jobs);
        w.number("current_queue_depth", self.current_queue_depth);
        assert(w.members@ =~= advertisement_members(
            self.name@,
            self.description@,
            self.max_concurrent_jobs as nat,
            self.current_queue_depth as nat,
        ));
        w.finish()
    }
}

/// The name that a worker shows.
pub open spec fn display_name(worker_name: Seq<char>, container_name: Seq<char>) -> Seq<char> {
    worker_name + " "@ + container_name
}

/// The name that the worker in a container shows.
pub fn worker_display_name(config: &Config, container_name: &str) -> (r: String)
    ensures
        r@ == display_name(config.worker_name@, container_name@),
{
    let mut r: String = config.worker_name.clone();
    r.append(" ");
    r.append(container_name);
    r
}

/// The tag of a piece of software.
pub open spec fn software_tag(s: WorkerSoftware) -> Seq<Seq<char>> {
    seq!["S"@, s.name@, s.version@, s.path@]
}

/// The tag of a price.
pub open spec fn price_tag(p: WorkerPrice) -> Seq<Seq<char>> {
    seq!["price"@, p.mint_url@, p.price_per_second@, p.unit@]
}

/// The tags of the software.
pub open spec fn software_tags(v: Seq<WorkerSoftware>) -> Seq<Seq<Seq<char>>> {
    v.map_values(|s: WorkerSoftware| software_tag(s))
}

/// The tags of the prices.
pub open spec fn price_tags(v: Seq<WorkerPrice>) -> Seq<Seq<Seq<char>>> {
    v.map_values(|p: WorkerPrice| price_tag(p))
}

/// The tags of the relays.
pub open spec fn relay_tags(v: Seq<String>) -> Seq<Seq<Seq<char>>> {
    v.map_values(|r: String| seq!["relay"@, r@])
}

/// The tag of the place, where one is configured.
pub open spec fn geohash_tags(g: Option<String>) -> Seq<Seq<Seq<char>>> {
    match g {
        Some(geohash) => seq![seq!["g"@, geohash@]],
        None => seq![],
    }
}

/// The tags of an advertisement.
pub open spec fn advertisement_tags(config: Config) -> Seq<Seq<Seq<char>>> {
    software_tags(config.worker_software@) + seq![seq!["A"@, config.worker_architecture@]]
        + price_tags(config.worker_prices@) + seq![
        seq!["metric"@, "second"@],
        seq!["min_duration"@, number::decimal(config.worker_min_duration as nat)],
        seq!["max_duration"@, number::decimal(config.worker_max_duration as nat)],
        seq!["default_shell"@, config.worker_default_shell@],
    ] + geohash_tags(config.worker_geohash) + relay_tags(config.relays@)
}

/// The content of an advertisement.
pub open spec fn advertisement_content(config: Config, container_name: Seq<char>) -> Seq<char> {
    json::object_text(
        advertisement_members(
            display_name(config.worker_name@, container_name),
            config.worker_description@,
            config.worker_max_concurrent_jobs as nat,
            0,
        ),
    )
}

/// Adds a tag with a name and three values.
fn push_triple(tags: &mut Vec<Vec<String>>, name: &str, a: &str, b: &str, c: &str)
    ensures
        final(tags).deep_view() == old(tags).deep_view().push(seq![name@, a@, b@, c@]),
{
    let mut tag: Vec<String> = Vec::new();
    tag.push(name.to_string());
    tag.push(a.to_string());
    tag.push(b.to_string());
    tag.push(c.to_string());
    assert(tag.deep_view() =~= seq![name@, a@, b@, c@]);
    let ghost before = tags.deep_view();
    let ghost view = tag.deep_view();
    tags.push(tag);
    assert(tags.deep_view() =~= before.push(view));
}

fn push_software_tags(tags: &mut Vec<Vec<String>>, v: &Vec<WorkerSoftware>)
    ensures
        final(tags).deep_view() == old(tags).deep_view() + software_tags(v@),
{
    let ghost before = tags.deep_view();
    let ghost all = software_tags(v@);
    let mut i: usize = 0;
    while i < v.len()
        invariant
            i <= v@.len(),
            all == software_tags(v@),
            tags.deep_view() =~= before + all.take(i as int),
        decreases v.len() - i,
    {
        let s = &v[i];
        push_triple(tags, "S", s.name.as_str(), s.version.as_str(), s.path.as_str());
        assert(all[i as int] == software_tag(*s));
        assert(all.take(i + 1) =~= all.take(i as int).push(all[i as int]));
        i = i + 1;
    }
    assert(all.take(i as int) =~= all);
}

fn push_price_tags(tags: &mut Vec<Vec<String>>, v: &Vec<WorkerPrice>)
    ensures
        final(tags).deep_view() == old(tags).deep_view() + price_tags(v@),
{
    let ghost before = tags.deep_view();
    let ghost all = price_tags(v@);
    let mut i: usize = 0;
    while i < v.len()
        invariant
            i <= v@.len(),
            all == price_tags(v@),
            tags.deep_view() =~= before + all.take(i as int),
        decreases v.len() - i,
    {
        let p = &v[i];
        push_triple(
            tags,
            "price",
            p.mint_url.as_str(),
            p.price_per_second.as_str(),
            p.unit.as_str(),
        );
        assert(all[i as int] == price_tag(*p));
        assert(all.take(i + 1) =~= all.take(i as int).push(all[i as int]));
        i = i + 1;
    }
    assert(all.take(i as int) =~= all);
}

fn push_relay_tags(tags: &mut Vec<Vec<String>>, v: &Vec<String>)
    ensures
        final(tags).deep_view() == old(tags).deep_view() + relay_tags(v@),
{
    let ghost before = tags.deep_view();
    let ghost all = relay_tags(v@);
    let mut i: usize = 0;
    while i < v.len()
        invariant
            i <= v@.len(),
            all == relay_tags(v@),
            tags.deep_view() =~= before + all.take(i as int),
        decreases v.len() - i,
    {
        push_tag(tags, "relay", v[i].as_str());
        assert(all[i as int] == seq!["relay"@, v@[i as int]@]);
        assert(all.take(i + 1) =~= all.take(i as int).push(all[i as int]));
        i = i + 1;
    }
    assert(all.take(i as int) =~= all);
}

/// Writes the event that advertises the worker in a container.
pub fn build_advertisement_event(
    config: &Config,
    identity: &WorkerIdentity,
    container_name: &str,
) -> (r: Result<Event, LoomError>)
    ensures
        match r {
            Ok(e) => {
                &&& event::parsed_keys(identity.keys.secret_key@) is Some
                &&& event::is_signed_event(
                    e,
                    identity.keys.secret_key@,
                    WORKER_ADVERTISEMENT_KIND,
                    advertisement_content(*config, container_name@),
                    advertisement_tags(*config),
                )
            },
            Err(e) => e is SignAdvertisement && event::parsed_keys(
                identity.keys.secret_key@,
            ) is None,
        },
{
    let content = AdvertisementContent {
        name: worker_display_name(config, container_name),
        description: config.worker_description.clone(),
        max_concurrent_jobs: config.worker_max_concurrent_jobs,
        current_queue_depth: 0,
    };
    let mut tags: Vec<Vec<String>> = Vec::new();
    assert(tags.deep_view() =~= seq![]);
    push_software_tags(&mut tags, &config.worker_software);
    push_tag(&mut tags, "A", config.worker_architecture.as_str());
    push_price_tags(&mut tags, &config.worker_prices);
    push_tag(&mut tags, "metric", "second");
    push_tag(&mut tags, "min_duration", decimal_text(config.worker_min_duration).as_str());
    push_tag(&mut tags, "max_duration", decimal_text(config.worker_max_duration).as_str());
    push_tag(&mut tags, "default_shell", config.worker_default_shell.as_str());
    match &config.worker_geohash {
        Some(geohash) => {
            push_tag(&mut tags, "g", geohash.as_str());
        },
        None => {},
    }
    push_relay_tags(&mut tags, &config.relays);
    assert(tags.deep_view() =~= advertisement_tags(*config));
    assert(event::tags_are_named(advertisement_tags(*config)));
    let json = content.to_json();
    match sign_event(
        identity.keys.secret_key.as_str(),
        WORKER_ADVERTISEMENT_KIND,
        json.as_str(),
        &tags,
    ) {
        Some(e) => Ok(e),
        None => Err(LoomError::SignAdvertisement),
    }
}

/// The first relay whose URL is not valid.
pub open spec fn first_invalid_relay(relays: Seq<Seq<char>>) -> Option<Seq<char>>
    decreases relays.len(),
{
    if relays.len() == 0 {
        None
    } else if !event::is_relay_url(relays[0]) {
        Some(relays[0])
    } else {
        first_invalid_relay(relays.drop_first())
    }
}

/// Finds the first relay whose URL is not valid.
fn find_invalid_relay(relays: &Vec<String>) -> (r: Option<String>)
    ensures
        text::optional(r) == first_invalid_relay(relays.deep_view()),
{
    let ghost views = relays.deep_view();
    assert(views.skip(0) =~= views);
    let mut i: usize = 0;
    while i < relays.len()
        invariant
            i <= relays@.len(),
            views == relays.deep_view(),
            first_invalid_relay(views) == first_invalid_relay(views.skip(i as int)),
        decreases relays.len() - i,
    {
        assert(views.skip(i as int)[0] == relays@[i as int]@);
        assert(views.skip(i as int).drop_first() =~= views.skip(i + 1));
        if parse_relay_url(relays[i].as_str()).is_none() {
            return Some(relays[i].clone());
        }
        i = i + 1;
    }
    None
}

/// Without an invalid relay, all relays are valid.
proof fn lemma_first_invalid_relay(relays: Seq<Seq<char>>)
    ensures
        first_invalid_relay(relays) is None <==> event::are_relay_urls(relays),
    decreases relays.len(),
{
    if relays.len() > 0 {
        let t = relays.drop_first();
        lemma_first_invalid_relay(t);
        if event::is_relay_url(relays[0]) {
            if event::are_relay_urls(t) {
                assert forall|i: int| 0 <= i < relays.len() implies event::is_relay_url(
                    #[trigger] relays[i],
                ) by {
                    if i > 0 {
                        assert(relays[i] == t[i - 1]);
                    }
                }
            }
            if event::are_relay_urls(relays) {
                assert forall|i: int| 0 <= i < t.len() implies event::is_relay_url(
                    #[trigger] t[i],
                ) by {
                    assert(t[i] == relays[i + 1]);
                }
            }
        }
    }
}

/// Whether a profile with these relays is short enough.
pub open spec fn profile_fits(relays: Seq<Seq<char>>) -> bool {
    event::profile_size(event::relay_texts(relays)) <= event::MAX_PROFILE_BYTES
}

/// Whether a relay is written as it is read, and its length can be stated.
pub open spec fn is_plain_relay(url: Seq<char>) -> bool {
    event::relay_text(url) == Some(url) && event::utf8_len(url) <= event::MAX_RELAY_BYTES
}

/// Whether a profile reference says whose it is and where they can be found: it is marked as one, and
/// reads back as the public key, in small letters, and the relays. A relay is read as its URL is
/// written, and is left out where that URL is not accepted once more; this holds as long as no URL is
/// too long for its length to be stated. Relays that are written as they are read come back unchanged.
pub open spec fn tells_profile(
    s: Seq<char>,
    public_key: Seq<char>,
    relays: Seq<Seq<char>>,
) -> bool {
    let texts = event::relay_texts(relays);
    &&& "nprofile1"@.is_prefix_of(s)
    &&& event::lengths_fit(texts) ==> event::nprofile_content(s) == Some(
        event::ProfileView {
            public_key: crate::search::lowercase(public_key),
            relays: event::relay_texts(texts),
        },
    )
    &&& (forall|i: int| 0 <= i < relays.len() ==> is_plain_relay(#[trigger] relays[i]))
        ==> event::nprofile_content(s) == Some(
        event::ProfileView { public_key: crate::search::lowercase(public_key), relays },
    )
}

/// Plain relays are kept as they are, and their lengths can be stated.
proof fn lemma_plain_relays(relays: Seq<Seq<char>>)
    ensures
        (forall|i: int| 0 <= i < relays.len() ==> is_plain_relay(#[trigger] relays[i])) ==> {
            &&& event::relay_texts(relays) == relays
            &&& event::lengths_fit(relays)
        },
{
    if forall|i: int| 0 <= i < relays.len() ==> is_plain_relay(#[trigger] relays[i]) {
        event::lemma_relay_texts_keep(relays);
    }
}

/// The profile reference of a worker reads back as the worker's public key and its relays, as long as
/// each relay is read again from the way it is written, and that is not too long. Relays that are
/// written as they are read come back unchanged.
pub proof fn lemma_nprofile_reads_back(
    identity: WorkerIdentity,
    relays: Seq<Seq<char>>,
    s: Seq<char>,
)
    requires
        identity.wf(),
        forall|i: int| 0 <= i < relays.len() ==> event::is_stable_relay(#[trigger] relays[i]),
        tells_profile(s, identity.keys.public_key@, relays),
    ensures
        "nprofile1"@.is_prefix_of(s),
        event::nprofile_content(s) == Some(
            event::ProfileView {
                public_key: identity.pubkey@,
                relays: event::relay_texts(relays),
            },
        ),
        (forall|i: int| 0 <= i < relays.len() ==> is_plain_relay(#[trigger] relays[i]))
            ==> event::relay_texts(relays) == relays,
{
    event::lemma_stable_relay_texts(relays);
    lemma_plain_relays(relays);
}

/// Reads a profile reference.
pub fn read_nprofile(nprofile: &str) -> (r: Option<Profile>)
    ensures
        r is Some <==> event::nprofile_content(nprofile@) is Some,
        r matches Some(p) ==> event::nprofile_content(nprofile@) == Some(p@),
{
    decode_nprofile(nprofile)
}

/// Writes the profile reference of a worker, with the relays where it can be found.
pub fn build_worker_nprofile(relays: &Vec<String>, identity: &WorkerIdentity) -> (r: Result<
    String,
    LoomError,
>)
    ensures
        ({
            let invalid = first_invalid_relay(relays.deep_view());
            let encoded = event::nprofile_text(identity.keys.public_key@, relays.deep_view());
            match r {
                Ok(s) => {
                    &&& invalid is None
                    &&& encoded == Some(s@)
                    &&& event::is_key_hex(identity.keys.public_key@) && profile_fits(
                        relays.deep_view(),
                    )
                    &&& tells_profile(s@, identity.keys.public_key@, relays.deep_view())
                },
                Err(LoomError::InvalidRelay { relay }) => invalid == Some(relay@),
                Err(LoomError::EncodeProfile) => {
                    &&& invalid is None
                    &&& encoded is None
                    &&& !(event::is_key_hex(identity.keys.public_key@) && profile_fits(
                        relays.deep_view(),
                    ))
                },
                Err(_) => false,
            }
        }),
{
    proof {
        lemma_first_invalid_relay(relays.deep_view());
        lemma_plain_relays(relays.deep_view());
    }
    match find_invalid_relay(relays) {
        Some(relay) => {
            return Err(LoomError::InvalidRelay { relay });
        },
        None => {},
    }
    match encode_nprofile(identity.keys.public_key.as_str(), relays) {
        Some(s) => Ok(s),
        None => Err(LoomError::EncodeProfile),
    }
}

/// What is published of a worker.
#[derive(Debug, PartialEq, Eq)]
pub struct WorkerPublication {
    pub metadata: Event,
    pub nprofile: String,
    pub advertisement: Event,
}

/// The content of a worker's profile metadata.
pub open spec fn metadata_content(config: Config, container_name: Seq<char>) -> Seq<char> {
    let name = display_name(config.worker_name@, container_name);
    event::metadata_json(name, name, config.worker_description@)
}

/// Writes everything that is published of the worker in a container: its profile metadata first,
/// then its advertisement.
pub fn build_worker_publication(
    config: &Config,
    relays: &Vec<String>,
    identity: &WorkerIdentity,
    container_name: &str,
) -> (r: Result<WorkerPublication, LoomError>)
    ensures
        ({
            let secret_key = identity.keys.secret_key@;
            let is_valid = event::parsed_keys(secret_key) is Some;
            let invalid = first_invalid_relay(relays.deep_view());
            let encoded = event::nprofile_text(identity.keys.public_key@, relays.deep_view());
            match r {
                Ok(p) => {
                    &&& is_valid && invalid is None && encoded == Some(p.nprofile@)
                    &&& tells_profile(
                        p.nprofile@,
                        identity.keys.public_key@,
                        relays.deep_view(),
                    )
                    &&& event::is_signed_event(
                        p.metadata,
                        secret_key,
                        PROFILE_METADATA_KIND,
                        metadata_content(*config, container_name@),
                        seq![],
                    )
                    &&& event::is_signed_event(
                        p.advertisement,
                        secret_key,
                        WORKER_ADVERTISEMENT_KIND,
                        advertisement_content(*config, container_name@),
                        advertisement_tags(*config),
                    )
                },
                Err(LoomError::SignMetadata) => !is_valid,
                Err(LoomError::InvalidRelay { relay }) => is_valid && invalid == Some(relay@),
                Err(LoomError::EncodeProfile) => is_valid && invalid is None && encoded is None,
                Err(_) => false,
            }
        }),
{
    let name = worker_display_name(config, container_name);
    let content = profile_json(name.as_str(), name.as_str(), config.worker_description.as_str());
    let none: Vec<Vec<String>> = Vec::new();
    assert(none.deep_view() =~= seq![]);
    let metadata = match sign_event(
        identity.keys.secret_key.as_str(),
        PROFILE_METADATA_KIND,
        content.as_str(),
        &none,
    ) {
        Some(e) => e,
        None => {
            return Err(LoomError::SignMetadata);
        },
    };
    let nprofile = match build_worker_nprofile(relays, identity) {
        Ok(s) => s,
        Err(e) => {
            return Err(e);
        },
    };
    match build_advertisement_event(config, identity, container_name) {
        Ok(advertisement) => Ok(WorkerPublication { metadata, nprofile, advertisement }),
        Err(e) => Err(e),
    }
}

// ---------------------------------------------------------------------------------------------
// Subscription
// ---------------------------------------------------------------------------------------------

/// The first worker whose public key is not one.
pub open spec fn first_invalid_worker(workers: Seq<WorkerIdentity>) -> Option<usize>
    decreases workers.len(),
{
    if workers.len() == 0 {
        None
    } else if !event::is_key_hex(workers[0].pubkey@) {
        Some(workers[0].slot)
    } else {
        first_invalid_worker(workers.drop_first())
    }
}

/// The public keys that job requests are looked for with: those of all workers, in order.
pub fn job_request_pubkeys(workers: &Vec<WorkerIdentity>) -> (r: Result<Vec<String>, LoomError>)
    ensures
        match r {
            Ok(keys) => {
                &&& first_invalid_worker(workers@) is None
                &&& keys@.len() == workers@.len()
                &&& forall|i: int|
                    0 <= i < keys@.len() ==> (#[trigger] keys@[i])@ == crate::search::lowercase(
                        workers@[i].pubkey@,
                    )
            },
            Err(e) => e matches LoomError::InvalidPubkey { slot } && first_invalid_worker(workers@)
                == Some(slot),
        },
{
    let mut keys: Vec<String> = Vec::new();
    let mut i: usize = 0;
    assert(workers@.skip(0) =~= workers@);
    while i < workers.len()
        invariant
            i <= workers@.len(),
            keys@.len() == i,
            first_invalid_worker(workers@) == first_invalid_worker(workers@.skip(i as int)),
            forall|j: int|
                0 <= j < i ==> (#[trigger] keys@[j])@ == crate::search::lowercase(
                    workers@[j].pubkey@,
                ),
        decreases workers.len() - i,
    {
        assert(workers@.skip(i as int)[0] == workers@[i as int]);
        assert(workers@.skip(i as int).drop_first() =~= workers@.skip(i + 1));
        match parse_public_key(workers[i].pubkey.as_str()) {
            Some(key) => {
                keys.push(key);
            },
            None => {
                return Err(LoomError::InvalidPubkey { slot: workers[i].slot });
            },
        }
        i = i + 1;
    }
    Ok(keys)
}

} // verus!
