use vstd::prelude::*;
use vstd::string::StringExecFns;
use crate::error::{invalid_state, KernelXError};
use crate::event::{event_id_text, OperationTag, OperationType, VectorEvent, VectorState, VectorStateView, EventView};
use crate::signature::{parsed_key, signature_check, verifying_key_from_hex, verify_event_signature, hex_encode};
use crate::encoding::hex_lower;
use vstd::string::StringSliceAdditionalSpecFns;
use crate::json::{json_map, json_map_text, json_str, json_str_text};
use crate::state::{copy_opt_string, opt_str_view};
use crate::hash::{blake3_hex, hash_hex, seal_event, sealed_event};
use crate::serialization::utf8;
use crate::text::concat2;
use crate::strmap::{entries_sorted, key_order, lemma_insert_at, lemma_insert_sorted, lemma_key_order_eq, lookup, sorted_insert, compare_keys, StringMap};
use crate::text::{parse_u64, parse_u64_text, parse_problem_text, strip_prefix_text, strip_text, ParseProblem, decimal, decimal_string, is_blank, lower_text, push_decimal, push_str, string_from_chars, trim_lower, trim_upper, trimmed, upper_text, Order};

verus! {

pub const REGION_CREATE_OPERATION_NAME: &'static str = "REGION_CREATE";
pub const REGION_TYPE_TAG: &'static str = "region";
pub const DEFAULT_REGION_AUTH_RATIO_BPS: u64 = 1000;

/// Whether an event creates a region: an origin event whose snapshot is tagged as a
/// region, or an event with the custom region-create operation.
pub open spec fn is_region_create(e: EventView) -> bool {
    (e.operation is OriginCreate && lookup(e.vector_after.metadata, "region_kind"@) == Some(REGION_TYPE_TAG@))
        || e.operation == OperationTag::Other(REGION_CREATE_OPERATION_NAME@)
}

/// Whether an event is a region creation event.
pub fn is_region_create_event(event: &VectorEvent) -> (r: bool)
    ensures r == is_region_create(event@),
{
    let tag = String::from_str(REGION_TYPE_TAG);
    let kind_is_region = match event.vector_after.metadata.get("region_kind") {
        Some(v) => *v == tag,
        None => false,
    };
    let origin_region = match event.operation {
        OperationType::OriginCreate => kind_is_region,
        _ => false,
    };
    let named = match &event.operation {
        OperationType::Other(name) => *name == String::from_str(REGION_CREATE_OPERATION_NAME),
        _ => false,
    };
    origin_region || named
}

/// The custom operation that creates a region.
pub fn region_create_operation() -> (r: OperationType)
    ensures r@ == OperationTag::Other(REGION_CREATE_OPERATION_NAME@),
{
    OperationType::Other(String::from_str(REGION_CREATE_OPERATION_NAME))
}

/// Who may read a region.
#[derive(Debug, Clone, Copy, PartialEq, Eq, Structural)]
pub enum RegionVisibility {
    Public,
    Private,
}

pub open spec fn visibility_name(v: RegionVisibility) -> Seq<char> {
    match v {
        RegionVisibility::Public => "public"@,
        RegionVisibility::Private => "private"@,
    }
}

impl RegionVisibility {
    /// The lower-case name of the visibility.
    pub fn as_str(&self) -> (r: &'static str)
        ensures r@ == visibility_name(*self),
    {
        match self {
            RegionVisibility::Public => "public",
            RegionVisibility::Private => "private",
        }
    }
}

/// A prefix trimmed and upper-cased; an empty result is no prefix.
pub open spec fn norm_prefix(p: Option<Seq<char>>) -> Option<Seq<char>> {
    match p {
        Some(v) => if upper_text(trimmed(v)).len() == 0 { None } else { Some(upper_text(trimmed(v))) },
        None => None,
    }
}

/// A name trimmed and lower-cased.
pub open spec fn norm_name(n: Seq<char>) -> Seq<char> {
    lower_text(trimmed(n))
}

/// The lookup key of a region: normalized prefix (or nothing), `::`, normalized name.
pub open spec fn lookup_text(prefix: Option<Seq<char>>, name: Seq<char>) -> Seq<char> {
    or_empty(norm_prefix(prefix)) + "::"@ + norm_name(name)
}

/// `o.unwrap_or_default()` on an optional string.
pub open spec fn or_empty(o: Option<Seq<char>>) -> Seq<char> {
    match o { Some(s) => s, None => Seq::empty() }
}

fn normalize_prefix(p: &Option<String>) -> (r: Option<String>)
    ensures opt_str_view(r) == norm_prefix(opt_str_view(*p)),
{
    match p {
        Some(v) => {
            let u = trim_upper(v.as_str());
            if u.as_str().is_empty() { None } else { Some(u) }
        }
        None => None,
    }
}

fn key_text(prefix: &Option<String>, name: &str) -> (r: String)
    ensures r@ == lookup_text(opt_str_view(*prefix), name@),
{
    let p = normalize_prefix(prefix);
    let n = trim_lower(name);
    let mut v: Vec<char> = Vec::new();
    match &p {
        Some(s) => push_str(&mut v, s.as_str()),
        None => {}
    }
    push_str(&mut v, "::");
    push_str(&mut v, n.as_str());
    assert(v@ =~= lookup_text(opt_str_view(*prefix), name@));
    string_from_chars(v.as_slice())
}

/// A request to create a region.
#[derive(Debug, Clone)]
pub struct RegionCreateRequest {
    pub region_name: String,
    pub region_prefix: Option<String>,
    pub suggested_title: Option<String>,
    pub visibility: RegionVisibility,
    pub section: u64,
    pub trigger_event_hash: String,
    pub creation_proof: String,
    pub access_key: Option<String>,
    pub metadata: StringMap,
    pub request_signature: String,
}

pub struct RequestView {
    pub region_name: Seq<char>,
    pub region_prefix: Option<Seq<char>>,
    pub suggested_title: Option<Seq<char>>,
    pub visibility: RegionVisibility,
    pub section: u64,
    pub trigger_event_hash: Seq<char>,
    pub creation_proof: Seq<char>,
    pub access_key: Option<Seq<char>>,
    pub metadata: Seq<(Seq<char>, Seq<char>)>,
    pub request_signature: Seq<char>,
}

impl View for RegionCreateRequest {
    type V = RequestView;
    open spec fn view(&self) -> RequestView {
        RequestView {
            region_name: self.region_name@,
            region_prefix: opt_str_view(self.region_prefix),
            suggested_title: opt_str_view(self.suggested_title),
            visibility: self.visibility,
            section: self.section,
            trigger_event_hash: self.trigger_event_hash@,
            creation_proof: self.creation_proof@,
            access_key: opt_str_view(self.access_key),
            metadata: self.metadata@,
            request_signature: self.request_signature@,
        }
    }
}

impl RegionCreateRequest {
    /// The region name, trimmed and lower-cased.
    pub fn normalized_name(&self) -> (r: String)
        ensures r@ == norm_name(self.region_name@),
    {
        trim_lower(self.region_name.as_str())
    }

    /// The prefix, trimmed and upper-cased, unless that leaves it empty.
    pub fn normalized_prefix(&self) -> (r: Option<String>)
        ensures opt_str_view(r) == norm_prefix(opt_str_view(self.region_prefix)),
    {
        normalize_prefix(&self.region_prefix)
    }

    /// `PREFIX::name`, the key a region is looked up by.
    pub fn lookup_key(&self) -> (r: String)
        ensures r@ == lookup_text(opt_str_view(self.region_prefix), self.region_name@),
    {
        key_text(&self.region_prefix, self.region_name.as_str())
    }
}

/// A region, as derived from its creation event.
#[derive(Debug, Clone)]
pub struct RegionState {
    pub region_id: String,
    pub region_root: String,
    pub region_name: String,
    pub normalized_name: String,
    pub region_prefix: Option<String>,
    pub suggested_title: Option<String>,
    pub visibility: RegionVisibility,
    pub section: u64,
    pub auth_ratio_bps: u64,
    pub creator_public_key: String,
    pub trigger_event_hash: String,
    pub creation_proof_hash: String,
    pub access_key_hash: Option<String>,
    pub created_at_ms: u64,
    pub updated_at_ms: u64,
    pub version: u64,
    pub metadata: StringMap,
}

pub struct RegionView {
    pub region_id: Seq<char>,
    pub region_root: Seq<char>,
    pub region_name: Seq<char>,
    pub normalized_name: Seq<char>,
    pub region_prefix: Option<Seq<char>>,
    pub suggested_title: Option<Seq<char>>,
    pub visibility: RegionVisibility,
    pub section: u64,
    pub auth_ratio_bps: u64,
    pub creator_public_key: Seq<char>,
    pub trigger_event_hash: Seq<char>,
    pub creation_proof_hash: Seq<char>,
    pub access_key_hash: Option<Seq<char>>,
    pub created_at_ms: u64,
    pub updated_at_ms: u64,
    pub version: u64,
    pub metadata: Seq<(Seq<char>, Seq<char>)>,
}

impl View for RegionState {
    type V = RegionView;
    open spec fn view(&self) -> RegionView {
        RegionView {
            region_id: self.region_id@,
            region_root: self.region_root@,
            region_name: self.region_name@,
            normalized_name: self.normalized_name@,
            region_prefix: opt_str_view(self.region_prefix),
            suggested_title: opt_str_view(self.suggested_title),
            visibility: self.visibility,
            section: self.section,
            auth_ratio_bps: self.auth_ratio_bps,
            creator_public_key: self.creator_public_key@,
            trigger_event_hash: self.trigger_event_hash@,
            creation_proof_hash: self.creation_proof_hash@,
            access_key_hash: opt_str_view(self.access_key_hash),
            created_at_ms: self.created_at_ms,
            updated_at_ms: self.updated_at_ms,
            version: self.version,
            metadata: self.metadata@,
        }
    }
}

impl RegionState {
    /// `PREFIX::name` from the stored prefix and normalized name.
    pub fn lookup_key(&self) -> (r: String)
        ensures r@ == lookup_text(opt_str_view(self.region_prefix), self.normalized_name@),
    {
        key_text(&self.region_prefix, self.normalized_name.as_str())
    }

    /// A copy with the same contents.
    pub fn duplicate(&self) -> (r: Self)
        ensures r@ == self@, self.metadata.wf() ==> r.metadata.wf(),
    {
        RegionState {
            region_id: self.region_id.clone(),
            region_root: self.region_root.clone(),
            region_name: self.region_name.clone(),
            normalized_name: self.normalized_name.clone(),
            region_prefix: copy_opt_string(&self.region_prefix),
            suggested_title: copy_opt_string(&self.suggested_title),
            visibility: self.visibility,
            section: self.section,
            auth_ratio_bps: self.auth_ratio_bps,
            creator_public_key: self.creator_public_key.clone(),
            trigger_event_hash: self.trigger_event_hash.clone(),
            creation_proof_hash: self.creation_proof_hash.clone(),
            access_key_hash: copy_opt_string(&self.access_key_hash),
            created_at_ms: self.created_at_ms,
            updated_at_ms: self.updated_at_ms,
            version: self.version,
            metadata: self.metadata.duplicate(),
        }
    }
}

// ---------------------------------------------------------------------------
// JSON of a region

pub open spec fn json_opt(o: Option<Seq<char>>) -> Seq<char> {
    match o { Some(s) => json_str_text(s), None => "null"@ }
}

pub open spec fn json_visibility(v: RegionVisibility) -> Seq<char> {
    match v { RegionVisibility::Public => "\"Public\""@, RegionVisibility::Private => "\"Private\""@ }
}

/// The JSON object of a region: its fields in declaration order.
pub open spec fn region_json(r: RegionView) -> Seq<char> {
    "{\"region_id\":"@ + json_str_text(r.region_id)
        + ",\"region_root\":"@ + json_str_text(r.region_root)
        + ",\"region_name\":"@ + json_str_text(r.region_name)
        + ",\"normalized_name\":"@ + json_str_text(r.normalized_name)
        + ",\"region_prefix\":"@ + json_opt(r.region_prefix)
        + ",\"suggested_title\":"@ + json_opt(r.suggested_title)
        + ",\"visibility\":"@ + json_visibility(r.visibility)
        + ",\"section\":"@ + decimal(r.section as nat)
        + ",\"auth_ratio_bps\":"@ + decimal(r.auth_ratio_bps as nat)
        + ",\"creator_public_key\":"@ + json_str_text(r.creator_public_key)
        + ",\"trigger_event_hash\":"@ + json_str_text(r.trigger_event_hash)
        + ",\"creation_proof_hash\":"@ + json_str_text(r.creation_proof_hash)
        + ",\"access_key_hash\":"@ + json_opt(r.access_key_hash)
        + ",\"created_at_ms\":"@ + decimal(r.created_at_ms as nat)
        + ",\"updated_at_ms\":"@ + decimal(r.updated_at_ms as nat)
        + ",\"version\":"@ + decimal(r.version as nat)
        + ",\"metadata\":"@ + json_map_text(r.metadata)
        + "}"@
}

fn push_json_opt(v: &mut Vec<char>, o: &Option<String>)
    ensures final(v)@ == old(v)@ + json_opt(opt_str_view(*o)),
{
    match o {
        Some(s) => {
            let j = json_str(s.as_str());
            push_str(v, j.as_str());
        }
        None => push_str(v, "null"),
    }
}

fn push_json_str(v: &mut Vec<char>, s: &String)
    ensures final(v)@ == old(v)@ + json_str_text(s@),
{
    let j = json_str(s.as_str());
    push_str(v, j.as_str());
}

/// Writes the JSON object of a region.
pub fn region_to_json(r: &RegionState) -> (out: String)
    requires r.metadata.wf(),
    ensures out@ == region_json(r@),
{
    let mut v: Vec<char> = Vec::new();
    push_str(&mut v, "{\"region_id\":");
    push_json_str(&mut v, &r.region_id);
    push_str(&mut v, ",\"region_root\":");
    push_json_str(&mut v, &r.region_root);
    push_str(&mut v, ",\"region_name\":");
    push_json_str(&mut v, &r.region_name);
    push_str(&mut v, ",\"normalized_name\":");
    push_json_str(&mut v, &r.normalized_name);
    push_str(&mut v, ",\"region_prefix\":");
    push_json_opt(&mut v, &r.region_prefix);
    push_str(&mut v, ",\"suggested_title\":");
    push_json_opt(&mut v, &r.suggested_title);
    push_str(&mut v, ",\"visibility\":");
    match r.visibility {
        RegionVisibility::Public => push_str(&mut v, "\"Public\""),
        RegionVisibility::Private => push_str(&mut v, "\"Private\""),
    }
    push_str(&mut v, ",\"section\":");
    push_decimal(&mut v, r.section as u128);
    push_str(&mut v, ",\"auth_ratio_bps\":");
    push_decimal(&mut v, r.auth_ratio_bps as u128);
    push_str(&mut v, ",\"creator_public_key\":");
    push_json_str(&mut v, &r.creator_public_key);
    push_str(&mut v, ",\"trigger_event_hash\":");
    push_json_str(&mut v, &r.trigger_event_hash);
    push_str(&mut v, ",\"creation_proof_hash\":");
    push_json_str(&mut v, &r.creation_proof_hash);
    push_str(&mut v, ",\"access_key_hash\":");
    push_json_opt(&mut v, &r.access_key_hash);
    push_str(&mut v, ",\"created_at_ms\":");
    push_decimal(&mut v, r.created_at_ms as u128);
    push_str(&mut v, ",\"updated_at_ms\":");
    push_decimal(&mut v, r.updated_at_ms as u128);
    push_str(&mut v, ",\"version\":");
    push_decimal(&mut v, r.version as u128);
    push_str(&mut v, ",\"metadata\":");
    let m = json_map(&r.metadata);
    push_str(&mut v, m.as_str());
    push_str(&mut v, "}");
    assert(v@ =~= region_json(r@));
    string_from_chars(v.as_slice())
}

// ---------------------------------------------------------------------------
// Core registry

/// Regions keyed by id: entries strictly increasing by id.
#[derive(Debug, Clone)]
pub struct RegionMap {
    pub entries: Vec<(String, RegionState)>,
}

impl View for RegionMap {
    type V = Seq<(Seq<char>, RegionView)>;
    open spec fn view(&self) -> Seq<(Seq<char>, RegionView)> {
        self.entries@.map_values(|e: (String, RegionState)| (e.0@, e.1@))
    }
}

impl RegionMap {
    /// Sorted by id, with well-formed metadata in every region.
    pub open spec fn wf(&self) -> bool {
        &&& entries_sorted(self@)
        &&& forall|i: int| 0 <= i < self.entries@.len() ==> (#[trigger] self.entries@[i]).1.metadata.wf()
    }

    pub fn new() -> (m: RegionMap)
        ensures m.wf(), m@ == Seq::<(Seq<char>, RegionView)>::empty(),
    {
        let m = RegionMap { entries: Vec::new() };
        assert(m@ =~= Seq::<(Seq<char>, RegionView)>::empty());
        m
    }

    pub fn len(&self) -> (n: usize)
        ensures n == self@.len(),
    {
        self.entries.len()
    }

    /// Looks a region id up.
    pub fn get(&self, key: &str) -> (r: Option<&RegionState>)
        ensures
            match r {
                Some(v) => lookup(self@, key@) == Some(v@) && (self.wf() ==> v.metadata.wf()),
                None => lookup(self@, key@) is None,
            },
    {
        let mut i: usize = 0;
        assert(self@.skip(0) =~= self@);
        while i < self.entries.len()
            invariant
                i <= self.entries.len(),
                lookup(self@, key@) == lookup(self@.skip(i as int), key@),
            decreases self.entries.len() - i,
        {
            proof { assert(self@.skip(i as int).drop_first() =~= self@.skip(i + 1)); }
            if crate::strmap::str_eq(self.entries[i].0.as_str(), key) {
                return Some(&self.entries[i].1);
            }
            i += 1;
        }
        None
    }

    /// Inserts or replaces a region, keeping the entries in id order.
    pub fn insert(&mut self, key: String, value: RegionState)
        requires value.metadata.wf(),
        ensures
            final(self)@ == sorted_insert(old(self)@, key@, value@),
            old(self).wf() ==> final(self).wf(),
    {
        let ghost old_view = self@;
        let ghost old_entries = self.entries@;
        proof { if entries_sorted(old_view) { lemma_insert_sorted(old_view, key@, value@); } }
        let mut i: usize = 0;
        while i < self.entries.len()
            invariant
                i <= self.entries.len(),
                self@ == old_view, self.entries@ == old_entries,
                forall|j: int| 0 <= j < i ==> key_order(#[trigger] old_view[j].0, key@) < 0,
            ensures
                i <= self.entries.len(),
                self@ == old_view, self.entries@ == old_entries,
                forall|j: int| 0 <= j < i ==> key_order(#[trigger] old_view[j].0, key@) < 0,
                i < self.entries.len() ==> key_order(old_view[i as int].0, key@) >= 0,
            decreases self.entries.len() - i,
        {
            let o = compare_keys(&self.entries[i].0, &key);
            if o != Order::Less {
                break;
            }
            i += 1;
        }
        proof {
            lemma_insert_at(old_view, key@, value@, i as int);
            if i < old_view.len() { lemma_key_order_eq(old_view[i as int].0, key@); }
        }
        let ghost kv = key@;
        let ghost vv = value@;
        let ghost ok = value.metadata.wf();
        if i < self.entries.len() && compare_keys(&self.entries[i].0, &key) == Order::Equal {
            self.entries.set(i, (key, value));
            assert(self@ =~= old_view.update(i as int, (kv, vv)));
            proof {
                assert forall|j: int| 0 <= j < self.entries@.len() && (forall|m: int| 0 <= m < old_entries.len() ==> (#[trigger] old_entries[m]).1.metadata.wf())
                    implies (#[trigger] self.entries@[j]).1.metadata.wf() by {
                    if j != i as int { assert(self.entries@[j] == old_entries[j]); }
                }
            }
        } else {
            self.entries.insert(i, (key, value));
            assert(self@ =~= old_view.insert(i as int, (kv, vv)));
            proof {
                assert forall|j: int| 0 <= j < self.entries@.len() && (forall|m: int| 0 <= m < old_entries.len() ==> (#[trigger] old_entries[m]).1.metadata.wf())
                    implies (#[trigger] self.entries@[j]).1.metadata.wf() by {
                    if j < i as int { assert(self.entries@[j] == old_entries[j]); }
                    else if j > i as int { assert(self.entries@[j] == old_entries[j - 1]); }
                }
            }
        }
    }
}

/// What adding a region does to a core: the new core, and the error if there is one.
/// A region id already present, or an overflow of the total, leaves the core unchanged;
/// an overflow of the version leaves the region and total recorded.
pub open spec fn core_insert(c: CoreView, v: RegionView) -> (CoreView, Option<Seq<char>>) {
    if lookup(c.regions, v.region_id) is Some {
        (c, Some("region already exists in core: "@ + v.region_id))
    } else if c.total_auth_ratio_bps + v.auth_ratio_bps > u64::MAX {
        (c, Some("core auth ratio overflow"@))
    } else {
        let regions = sorted_insert(c.regions, v.region_id, v);
        let total = (c.total_auth_ratio_bps + v.auth_ratio_bps) as u64;
        if c.version < u64::MAX {
            let version = (c.version + 1) as u64;
            (CoreView { regions, total_auth_ratio_bps: total, core_root: core_root_of(regions, total, version), version }, None)
        } else {
            (CoreView { regions, total_auth_ratio_bps: total, core_root: c.core_root, version: c.version }, Some("core version overflow"@))
        }
    }
}

/// The registry of regions.
#[derive(Debug, Clone)]
pub struct CoreState {
    pub regions: RegionMap,
    pub total_auth_ratio_bps: u64,
    pub core_root: String,
    pub version: u64,
}

pub struct CoreView {
    pub regions: Seq<(Seq<char>, RegionView)>,
    pub total_auth_ratio_bps: u64,
    pub core_root: Seq<char>,
    pub version: u64,
}

impl View for CoreState {
    type V = CoreView;
    open spec fn view(&self) -> CoreView {
        CoreView {
            regions: self.regions@,
            total_auth_ratio_bps: self.total_auth_ratio_bps,
            core_root: self.core_root@,
            version: self.version,
        }
    }
}

/// Region id to region JSON, for the first `n` regions.
pub open spec fn regions_json_upto(regions: Seq<(Seq<char>, RegionView)>, n: nat) -> Seq<(Seq<char>, Seq<char>)>
    decreases n,
{
    if n == 0 {
        Seq::empty()
    } else {
        sorted_insert(regions_json_upto(regions, (n - 1) as nat), regions[n - 1].0, region_json(regions[n - 1].1))
    }
}

/// The map the core root is taken over.
pub open spec fn core_payload(regions: Seq<(Seq<char>, RegionView)>, total: u64, version: u64) -> Seq<(Seq<char>, Seq<char>)> {
    let p0 = sorted_insert(Seq::empty(), "version"@, decimal(version as nat));
    let p1 = sorted_insert(p0, "total_auth_ratio_bps"@, decimal(total as nat));
    let p2 = sorted_insert(p1, "region_count"@, decimal(regions.len()));
    sorted_insert(p2, "regions"@, json_map_text(regions_json_upto(regions, regions.len())))
}

/// The canonical bytes of a core state: its payload map as JSON.
pub open spec fn core_bytes(regions: Seq<(Seq<char>, RegionView)>, total: u64, version: u64) -> Seq<u8> {
    utf8(json_map_text(core_payload(regions, total, version)))
}

pub open spec fn core_root_of(regions: Seq<(Seq<char>, RegionView)>, total: u64, version: u64) -> Seq<char> {
    hash_hex(core_bytes(regions, total, version))
}

/// The canonical bytes of a core state.
pub fn canonical_core_bytes(core: &CoreState) -> (r: Vec<u8>)
    requires core.regions.wf(),
    ensures r@ == core_bytes(core.regions@, core.total_auth_ratio_bps, core.version),
{
    let ghost rv = core.regions@;
    let mut regions = StringMap::new();
    let mut i: usize = 0;
    while i < core.regions.entries.len()
        invariant
            i <= core.regions.entries.len(), rv == core.regions@, core.regions.wf(),
            regions.wf(), regions@ == regions_json_upto(rv, i as nat),
        decreases core.regions.entries.len() - i,
    {
        let region = &core.regions.entries[i].1;
        assert(core.regions.entries@[i as int].1.metadata.wf());
        let json = region_to_json(region);
        regions.insert(core.regions.entries[i].0.clone(), json);
        i += 1;
    }
    let mut payload = StringMap::new();
    payload.insert(String::from_str("version"), decimal_string(core.version as u128));
    payload.insert(String::from_str("total_auth_ratio_bps"), decimal_string(core.total_auth_ratio_bps as u128));
    payload.insert(String::from_str("region_count"), decimal_string(core.regions.len() as u128));
    payload.insert(String::from_str("regions"), json_map(&regions));
    let text = json_map(&payload);
    let mut out: Vec<u8> = Vec::new();
    crate::encoding::push_bytes(&mut out, text.as_str().as_bytes());
    assert(out@ =~= core_bytes(rv, core.total_auth_ratio_bps, core.version));
    out
}

/// The hash of the canonical core bytes.
pub fn canonical_core_root(core: &CoreState) -> (r: String)
    requires core.regions.wf(),
    ensures r@ == core_root_of(core.regions@, core.total_auth_ratio_bps, core.version),
{
    let bytes = canonical_core_bytes(core);
    blake3_hex(bytes.as_slice())
}

impl CoreState {
    pub open spec fn wf(&self) -> bool {
        self.regions.wf()
    }

    /// An empty registry with its root.
    pub fn new() -> (r: Self)
        ensures
            r.wf(), r.regions@ == Seq::<(Seq<char>, RegionView)>::empty(), r.total_auth_ratio_bps == 0, r.version == 0,
            r.core_root@ == core_root_of(Seq::empty(), 0, 0),
    {
        let mut core = CoreState { regions: RegionMap::new(), total_auth_ratio_bps: 0, core_root: String::new(), version: 0 };
        core.core_root = canonical_core_root(&core);
        core
    }

    /// Adds a region under its id, adds its auth ratio to the total, bumps the version
    /// and recomputes the root. A region id already present is rejected; an overflow of
    /// the total is rejected before any change; an overflow of the version is rejected
    /// after the region and total were recorded.
    pub fn insert_region(&mut self, region: RegionState) -> (r: Result<(), KernelXError>)
        requires old(self).wf(), region.metadata.wf(),
        ensures
            final(self).wf(),
            final(self)@ == core_insert(old(self)@, region@).0,
            match core_insert(old(self)@, region@).1 {
                None => r is Ok,
                Some(m) => invalid_state(r, m),
            },
    {
        if self.regions.get(region.region_id.as_str()).is_some() {
            return Err(KernelXError::InvalidState(crate::text::concat2("region already exists in core: ", region.region_id.as_str())));
        }
        let total = match self.total_auth_ratio_bps.checked_add(region.auth_ratio_bps) {
            Some(t) => t,
            None => { return Err(KernelXError::InvalidState(String::from_str("core auth ratio overflow"))); }
        };
        self.total_auth_ratio_bps = total;
        let id = region.region_id.clone();
        self.regions.insert(id, region);
        let version = match self.version.checked_add(1) {
            Some(v) => v,
            None => { return Err(KernelXError::InvalidState(String::from_str("core version overflow"))); }
        };
        self.version = version;
        self.core_root = canonical_core_root(self);
        Ok(())
    }
}

impl Default for CoreState {
    fn default() -> (r: Self)
        ensures
            r.wf(), r.regions@ == Seq::<(Seq<char>, RegionView)>::empty(), r.total_auth_ratio_bps == 0, r.version == 0,
            r.core_root@ == core_root_of(Seq::empty(), 0, 0),
    {
        CoreState::new()
    }
}

// ---------------------------------------------------------------------------
// Requests

/// What validating a region request reports, in order of checking.
pub open spec fn request_problem(r: RequestView) -> Option<Seq<char>> {
    if trimmed(r.region_name).len() == 0 {
        Some("region_name cannot be empty"@)
    } else if r.section == 0 {
        Some("section must be greater than zero"@)
    } else if trimmed(r.trigger_event_hash).len() == 0 {
        Some("trigger_event_hash cannot be empty"@)
    } else if trimmed(r.creation_proof).len() == 0 {
        Some("creation_proof cannot be empty"@)
    } else if trimmed(r.request_signature).len() == 0 {
        Some("request_signature cannot be empty"@)
    } else {
        match r.visibility {
            RegionVisibility::Public => if r.access_key is Some {
                Some("public regions must not include an access_key"@)
            } else {
                None
            },
            RegionVisibility::Private => match r.access_key {
                None => Some("private regions require a non-empty access_key"@),
                Some(k) => if trimmed(k).len() == 0 { Some("private regions require a non-empty access_key"@) } else { None },
            },
        }
    }
}

/// Checks a region request: name, section, trigger hash, proof and signature present, and
/// an access key exactly for private regions.
pub fn validate_region_create_request(request: &RegionCreateRequest) -> (r: Result<(), KernelXError>)
    ensures
        match request_problem(request@) {
            None => r is Ok,
            Some(m) => invalid_state(r, m),
        },
{
    if is_blank(request.region_name.as_str()) {
        return Err(KernelXError::InvalidState(String::from_str("region_name cannot be empty")));
    }
    if request.section == 0 {
        return Err(KernelXError::InvalidState(String::from_str("section must be greater than zero")));
    }
    if is_blank(request.trigger_event_hash.as_str()) {
        return Err(KernelXError::InvalidState(String::from_str("trigger_event_hash cannot be empty")));
    }
    if is_blank(request.creation_proof.as_str()) {
        return Err(KernelXError::InvalidState(String::from_str("creation_proof cannot be empty")));
    }
    if is_blank(request.request_signature.as_str()) {
        return Err(KernelXError::InvalidState(String::from_str("request_signature cannot be empty")));
    }
    match request.visibility {
        RegionVisibility::Public => {
            if request.access_key.is_some() {
                return Err(KernelXError::InvalidState(String::from_str("public regions must not include an access_key")));
            }
        }
        RegionVisibility::Private => {
            let missing = match &request.access_key {
                Some(k) => is_blank(k.as_str()),
                None => true,
            };
            if missing {
                return Err(KernelXError::InvalidState(String::from_str("private regions require a non-empty access_key")));
            }
        }
    }
    Ok(())
}

/// The map a region request is signed over.
pub open spec fn signature_payload(r: RequestView) -> Seq<(Seq<char>, Seq<char>)> {
    let p0 = sorted_insert(Seq::empty(), "region_name"@, r.region_name);
    let p1 = sorted_insert(p0, "region_prefix"@, or_empty(r.region_prefix));
    let p2 = sorted_insert(p1, "suggested_title"@, or_empty(r.suggested_title));
    let p3 = sorted_insert(p2, "visibility"@, visibility_name(r.visibility));
    let p4 = sorted_insert(p3, "section"@, decimal(r.section as nat));
    let p5 = sorted_insert(p4, "trigger_event_hash"@, r.trigger_event_hash);
    let p6 = sorted_insert(p5, "creation_proof"@, r.creation_proof);
    let p7 = sorted_insert(p6, "access_key"@, or_empty(r.access_key));
    sorted_insert(p7, "metadata"@, json_map_text(r.metadata))
}

/// The bytes a region request is signed over: its signature payload as JSON.
pub open spec fn signature_bytes(r: RequestView) -> Seq<u8> {
    utf8(json_map_text(signature_payload(r)))
}

fn or_empty_string(o: &Option<String>) -> (r: String)
    ensures r@ == or_empty(opt_str_view(*o)),
{
    match o {
        Some(s) => s.clone(),
        None => String::new(),
    }
}

pub(crate) fn text_bytes(s: &String) -> (r: Vec<u8>)
    ensures r@ == utf8(s@),
{
    let mut out: Vec<u8> = Vec::new();
    crate::encoding::push_bytes(&mut out, s.as_str().as_bytes());
    assert(out@ =~= utf8(s@));
    out
}

/// The canonical bytes a region request is signed over.
pub fn canonical_region_request_signature_bytes(request: &RegionCreateRequest) -> (r: Result<Vec<u8>, KernelXError>)
    requires request.metadata.wf(),
    ensures r is Ok, r->Ok_0@ == signature_bytes(request@),
{
    let mut payload = StringMap::new();
    payload.insert(String::from_str("region_name"), request.region_name.clone());
    payload.insert(String::from_str("region_prefix"), or_empty_string(&request.region_prefix));
    payload.insert(String::from_str("suggested_title"), or_empty_string(&request.suggested_title));
    payload.insert(String::from_str("visibility"), String::from_str(request.visibility.as_str()));
    payload.insert(String::from_str("section"), decimal_string(request.section as u128));
    payload.insert(String::from_str("trigger_event_hash"), request.trigger_event_hash.clone());
    payload.insert(String::from_str("creation_proof"), request.creation_proof.clone());
    payload.insert(String::from_str("access_key"), or_empty_string(&request.access_key));
    payload.insert(String::from_str("metadata"), json_map(&request.metadata));
    let text = json_map(&payload);
    Ok(text_bytes(&text))
}

/// The hash of a string's bytes, hex encoded.
pub open spec fn text_hash(s: Seq<char>) -> Seq<char> {
    hash_hex(utf8(s))
}

fn hash_text(s: &String) -> (r: String)
    ensures r@ == text_hash(s@),
{
    blake3_hex(s.as_str().as_bytes())
}

/// The stored hash of an optional access key; no key hashes to nothing.
pub open spec fn opt_hash(o: Option<Seq<char>>) -> Option<Seq<char>> {
    match o { Some(k) => Some(text_hash(k)), None => None }
}

/// The map a region id is derived from.
pub open spec fn seed_payload(r: RequestView, actor: Seq<char>) -> Seq<(Seq<char>, Seq<char>)> {
    let p0 = sorted_insert(Seq::empty(), "actor_public_key"@, actor);
    let p1 = sorted_insert(p0, "region_name"@, r.region_name);
    let p2 = sorted_insert(p1, "region_prefix"@, or_empty(r.region_prefix));
    let p3 = sorted_insert(p2, "suggested_title"@, or_empty(r.suggested_title));
    let p4 = sorted_insert(p3, "visibility"@, visibility_name(r.visibility));
    let p5 = sorted_insert(p4, "section"@, decimal(r.section as nat));
    let p6 = sorted_insert(p5, "trigger_event_hash"@, r.trigger_event_hash);
    let p7 = sorted_insert(p6, "creation_proof_hash"@, text_hash(r.creation_proof));
    let p8 = sorted_insert(p7, "access_key_hash"@, or_empty(opt_hash(r.access_key)));
    sorted_insert(p8, "metadata"@, json_map_text(r.metadata))
}

/// The canonical id of a region: `PREFIX::rgn_<24 hex digits of the seed hash>::<sequence>`,
/// with `RGN` when the request has no prefix.
pub open spec fn region_id_text(r: RequestView, actor: Seq<char>, sequence: u64) -> Seq<char> {
    let prefix = match norm_prefix(r.region_prefix) { Some(p) => p, None => "RGN"@ };
    prefix + "::rgn_"@ + hash_hex(utf8(json_map_text(seed_payload(r, actor)))).take(24) + "::"@ + decimal(sequence as nat)
}

fn canonical_region_seed_bytes(request: &RegionCreateRequest, actor_public_key: &str) -> (r: Vec<u8>)
    requires request.metadata.wf(),
    ensures r@ == utf8(json_map_text(seed_payload(request@, actor_public_key@))),
{
    let mut payload = StringMap::new();
    payload.insert(String::from_str("actor_public_key"), String::from_str(actor_public_key));
    payload.insert(String::from_str("region_name"), request.region_name.clone());
    payload.insert(String::from_str("region_prefix"), or_empty_string(&request.region_prefix));
    payload.insert(String::from_str("suggested_title"), or_empty_string(&request.suggested_title));
    payload.insert(String::from_str("visibility"), String::from_str(request.visibility.as_str()));
    payload.insert(String::from_str("section"), decimal_string(request.section as u128));
    payload.insert(String::from_str("trigger_event_hash"), request.trigger_event_hash.clone());
    payload.insert(String::from_str("creation_proof_hash"), hash_text(&request.creation_proof));
    let access = match &request.access_key {
        Some(k) => hash_text(k),
        None => String::new(),
    };
    payload.insert(String::from_str("access_key_hash"), access);
    payload.insert(String::from_str("metadata"), json_map(&request.metadata));
    let text = json_map(&payload);
    text_bytes(&text)
}

/// The canonical id of the region a request creates.
pub fn canonical_region_id(request: &RegionCreateRequest, actor_public_key: &str, sequence: u64) -> (r: Result<String, KernelXError>)
    requires request.metadata.wf(),
    ensures r is Ok, r->Ok_0@ == region_id_text(request@, actor_public_key@, sequence),
{
    let seed = canonical_region_seed_bytes(request, actor_public_key);
    let digest = blake3_hex(seed.as_slice());
    let digest_chars = crate::text::chars_of(digest.as_str());
    let prefix = match request.normalized_prefix() {
        Some(p) => p,
        None => String::from_str("RGN"),
    };
    let mut v: Vec<char> = Vec::new();
    push_str(&mut v, prefix.as_str());
    push_str(&mut v, "::rgn_");
    let mut i: usize = 0;
    while i < 24
        invariant i <= 24, digest_chars@.len() == 64, v@ =~= prefix@ + "::rgn_"@ + digest_chars@.take(i as int),
        decreases 24 - i,
    {
        v.push(digest_chars[i]);
        i += 1;
        assert(v@ =~= prefix@ + "::rgn_"@ + digest_chars@.take(i as int));
    }
    push_str(&mut v, "::");
    push_decimal(&mut v, sequence as u128);
    assert(v@ =~= region_id_text(request@, actor_public_key@, sequence));
    Ok(string_from_chars(v.as_slice()))
}

/// A report on checking the signature of a region request.
#[derive(Debug, Clone)]
pub struct RegionRequestSignatureDebug {
    pub lookup_key: String,
    pub actor_public_key: String,
    pub payload_len: usize,
    pub payload_hash: String,
    pub signature_len: usize,
    pub verified: bool,
    pub canonical_preview_hex: String,
}

/// Whether the request's signature verifies under the actor's key, or the error text.
pub open spec fn request_signature_check(actor: Seq<char>, r: RequestView) -> Result<bool, Seq<char>> {
    match parsed_key(utf8(actor)) {
        Err(m) => Err("region actor key error: "@ + m),
        Ok(key) => match signature_check(key, signature_bytes(r), utf8(r.request_signature)) {
            Err(m) => Err("region request signature error: "@ + m),
            Ok(v) => Ok(v),
        },
    }
}

/// Checks the signature of a region request and reports on the signed payload.
pub fn debug_region_create_request_signature(actor_public_key: &str, request: &RegionCreateRequest)
    -> (r: Result<RegionRequestSignatureDebug, KernelXError>)
    requires request.metadata.wf(),
    ensures
        match request_signature_check(actor_public_key@, request@) {
            Err(m) => invalid_state(r, m),
            Ok(v) => r is Ok && {
                let d = r->Ok_0;
                let bytes = signature_bytes(request@);
                &&& d.verified == v
                &&& d.lookup_key@ == lookup_text(request@.region_prefix, request@.region_name)
                &&& d.actor_public_key@ == actor_public_key@
                &&& d.payload_len == bytes.len()
                &&& d.payload_hash@ == hash_hex(bytes)
                &&& d.signature_len == utf8(request@.request_signature).len() as usize
                &&& d.canonical_preview_hex@ == hex_lower(bytes.take(if bytes.len() < 32 { bytes.len() as int } else { 32 }))
            },
        },
{
    let vk = match verifying_key_from_hex(actor_public_key) {
        Ok(k) => k,
        Err(e) => { return Err(KernelXError::InvalidState(crate::text::concat2("region actor key error: ", e.as_str()))); }
    };
    let bytes = match canonical_region_request_signature_bytes(request) {
        Ok(b) => b,
        Err(e) => { return Err(e); }
    };
    let payload_hash = blake3_hex(bytes.as_slice());
    let lookup_key = request.lookup_key();
    let verified = match verify_event_signature(&vk, bytes.as_slice(), request.request_signature.as_str()) {
        Ok(v) => v,
        Err(e) => { return Err(KernelXError::InvalidState(crate::text::concat2("region request signature error: ", e.as_str()))); }
    };
    let n = if bytes.len() < 32 { bytes.len() } else { 32 };
    let mut preview: Vec<u8> = Vec::new();
    let mut i: usize = 0;
    while i < n
        invariant i <= n, n <= bytes.len(), preview@ =~= bytes@.take(i as int),
        decreases n - i,
    {
        preview.push(bytes[i]);
        i += 1;
        assert(preview@ =~= bytes@.take(i as int));
    }
    Ok(RegionRequestSignatureDebug {
        lookup_key,
        actor_public_key: String::from_str(actor_public_key),
        payload_len: bytes.len(),
        payload_hash,
        signature_len: request.request_signature.as_str().len(),
        verified,
        canonical_preview_hex: hex_encode(preview.as_slice()),
    })
}

/// Accepts a region request only when its signature verifies under the actor's key.
pub fn verify_region_create_request_signature(actor_public_key: &str, request: &RegionCreateRequest) -> (r: Result<(), KernelXError>)
    requires request.metadata.wf(),
    ensures
        match request_signature_check(actor_public_key@, request@) {
            Err(m) => invalid_state(r, m),
            Ok(v) => if v { r is Ok } else { invalid_state(r, "region request signature verification failed"@) },
        },
{
    let report = debug_region_create_request_signature(actor_public_key, request)?;
    if report.verified {
        Ok(())
    } else {
        Err(KernelXError::InvalidState(String::from_str("region request signature verification failed")))
    }
}

// ---------------------------------------------------------------------------
// Genesis events

/// The bit pattern of the auth ratio 1.0 a genesis event carries.
pub const FULL_AUTH_RATIO_BITS: u64 = 0x3FF0_0000_0000_0000;

/// The request's own metadata added under `meta:` keys, first `n` entries.
pub open spec fn meta_entries(base: Seq<(Seq<char>, Seq<char>)>, md: Seq<(Seq<char>, Seq<char>)>, n: nat) -> Seq<(Seq<char>, Seq<char>)>
    decreases n,
{
    if n == 0 { base } else { sorted_insert(meta_entries(base, md, (n - 1) as nat), "meta:"@ + md[n - 1].0, md[n - 1].1) }
}

/// The metadata of a genesis event's region snapshot.
pub open spec fn genesis_metadata(r: RequestView, actor: Seq<char>) -> Seq<(Seq<char>, Seq<char>)> {
    let m0 = sorted_insert(Seq::empty(), "region_kind"@, REGION_TYPE_TAG@);
    let m1 = sorted_insert(m0, "region_name"@, r.region_name);
    let m2 = sorted_insert(m1, "normalized_name"@, norm_name(r.region_name));
    let m3 = sorted_insert(m2, "region_prefix"@, or_empty(norm_prefix(r.region_prefix)));
    let m4 = sorted_insert(m3, "section"@, decimal(r.section as nat));
    let m5 = sorted_insert(m4, "suggested_title"@, or_empty(r.suggested_title));
    let m6 = sorted_insert(m5, "visibility"@, visibility_name(r.visibility));
    let m7 = sorted_insert(m6, "creator_public_key"@, actor);
    let m8 = sorted_insert(m7, "trigger_event_hash"@, r.trigger_event_hash);
    let m9 = sorted_insert(m8, "creation_proof_hash"@, text_hash(r.creation_proof));
    let m10 = sorted_insert(m9, "access_key_hash"@, or_empty(opt_hash(r.access_key)));
    let m11 = sorted_insert(m10, "initial_auth_ratio_bps"@, decimal(DEFAULT_REGION_AUTH_RATIO_BPS as nat));
    let m12 = sorted_insert(m11, "core_registry"@, "core"@);
    let m13 = sorted_insert(m12, "default_auth_ratio"@, "1.0"@);
    meta_entries(m13, r.metadata, r.metadata.len())
}

/// The genesis event of a region before sealing.
pub open spec fn genesis_base(r: RequestView, actor: Seq<char>, region_id: Seq<char>, logical_clock: u64, timestamp: u64, sequence: u64) -> EventView {
    let op = OperationTag::Other(REGION_CREATE_OPERATION_NAME@);
    EventView {
        event_id: event_id_text(region_id, region_id, op, logical_clock, sequence),
        parent_hashes: Seq::empty(),
        region_id: region_id,
        entity_id: region_id,
        operation: op,
        vector_before: VectorStateView { components: Seq::empty(), owner_public_key: Seq::empty(), type_tag: REGION_TYPE_TAG@, metadata: Seq::empty() },
        vector_after: VectorStateView { components: Seq::empty(), owner_public_key: Seq::empty(), type_tag: REGION_TYPE_TAG@, metadata: genesis_metadata(r, actor) },
        auth_ratio_bits: FULL_AUTH_RATIO_BITS,
        certified: true,
        actor_public_key: actor,
        logical_clock: logical_clock,
        timestamp: timestamp,
        payload_hash: Seq::empty(),
        event_hash: Seq::empty(),
        signature: r.request_signature,
    }
}

/// The sealed genesis event of the region a request creates.
pub open spec fn genesis_event(r: RequestView, actor: Seq<char>, logical_clock: u64, timestamp: u64, sequence: u64) -> EventView {
    sealed_event(genesis_base(r, actor, region_id_text(r, actor, sequence), logical_clock, timestamp, sequence))
}

/// Builds the canonical, signed genesis event of the region a valid request creates.
pub fn build_region_genesis_event(request: &RegionCreateRequest, actor_public_key: &str, logical_clock: u64, timestamp: u64,
    sequence: u64) -> (r: Result<VectorEvent, KernelXError>)
    requires request.metadata.wf(),
    ensures
        match request_problem(request@) {
            Some(m) => invalid_state(r, m),
            None => r is Ok && r->Ok_0@ == genesis_event(request@, actor_public_key@, logical_clock, timestamp, sequence),
        },
        r is Ok ==> r->Ok_0@.event_hash.len() == 64,
{
    validate_region_create_request(request)?;
    let creation_proof_hash = hash_text(&request.creation_proof);
    let access_key_hash = match &request.access_key {
        Some(k) => Some(hash_text(k)),
        None => None,
    };
    let region_id = canonical_region_id(request, actor_public_key, sequence)?;
    let ghost r = request@;
    let ghost actor = actor_public_key@;
    let mut metadata = StringMap::new();
    metadata.insert(String::from_str("region_kind"), String::from_str(REGION_TYPE_TAG));
    metadata.insert(String::from_str("region_name"), request.region_name.clone());
    metadata.insert(String::from_str("normalized_name"), request.normalized_name());
    let prefix = match request.normalized_prefix() {
        Some(p) => p,
        None => String::new(),
    };
    metadata.insert(String::from_str("region_prefix"), prefix);
    metadata.insert(String::from_str("section"), decimal_string(request.section as u128));
    metadata.insert(String::from_str("suggested_title"), or_empty_string(&request.suggested_title));
    metadata.insert(String::from_str("visibility"), String::from_str(request.visibility.as_str()));
    metadata.insert(String::from_str("creator_public_key"), String::from_str(actor_public_key));
    metadata.insert(String::from_str("trigger_event_hash"), request.trigger_event_hash.clone());
    metadata.insert(String::from_str("creation_proof_hash"), creation_proof_hash);
    metadata.insert(String::from_str("access_key_hash"), or_empty_string(&access_key_hash));
    metadata.insert(String::from_str("initial_auth_ratio_bps"), decimal_string(DEFAULT_REGION_AUTH_RATIO_BPS as u128));
    metadata.insert(String::from_str("core_registry"), String::from_str("core"));
    metadata.insert(String::from_str("default_auth_ratio"), String::from_str("1.0"));
    let ghost base = metadata@;
    assert(meta_entries(base, r.metadata, 0) == base);
    let mut i: usize = 0;
    while i < request.metadata.entries.len()
        invariant
            i <= request.metadata.entries.len(), r == request@,
            metadata@ == meta_entries(base, r.metadata, i as nat),
        decreases request.metadata.entries.len() - i,
    {
        let key = crate::text::concat2("meta:", request.metadata.entries[i].0.as_str());
        metadata.insert(key, request.metadata.entries[i].1.clone());
        i += 1;
    }
    assert(metadata@ == genesis_metadata(r, actor));
    let before = VectorState::zero(0, String::new(), String::from_str(REGION_TYPE_TAG));
    let after = VectorState::new(Vec::new(), String::new(), String::from_str(REGION_TYPE_TAG), metadata);
    let operation = region_create_operation();
    let event_id = VectorEvent::canonical_event_id(region_id.as_str(), region_id.as_str(), &operation, logical_clock, sequence);
    let entity_id = region_id.clone();
    let mut event = VectorEvent::new(event_id, Vec::new(), region_id, entity_id, operation, before, after,
        FULL_AUTH_RATIO_BITS, true, String::from_str(actor_public_key), logical_clock, timestamp);
    event.signature = request.request_signature.clone();
    proof {
        assert(event@.vector_before.components =~= Seq::<u64>::empty());
        assert(event@.vector_after.components =~= Seq::<u64>::empty());
        assert(event@.parent_hashes =~= Seq::<Seq<char>>::empty());
        assert(event@ == genesis_base(r, actor, region_id_text(r, actor, sequence), logical_clock, timestamp, sequence));
    }
    Ok(seal_event(event))
}

// ---------------------------------------------------------------------------
// Deriving regions from events

/// A present, non-blank value.
pub open spec fn nonblank(o: Option<Seq<char>>) -> Option<Seq<char>> {
    match o {
        Some(v) => if trimmed(v).len() == 0 { None } else { Some(v) },
        None => None,
    }
}

/// The entries of the first `n` metadata entries whose keys start with `meta:`, with
/// that prefix removed.
pub open spec fn stripped_meta(md: Seq<(Seq<char>, Seq<char>)>, n: nat) -> Seq<(Seq<char>, Seq<char>)>
    decreases n,
{
    if n == 0 {
        Seq::empty()
    } else {
        match strip_text(md[n - 1].0, "meta:"@) {
            Some(k) => sorted_insert(stripped_meta(md, (n - 1) as nat), k, md[n - 1].1),
            None => stripped_meta(md, (n - 1) as nat),
        }
    }
}

proof fn lemma_stripped_sorted(md: Seq<(Seq<char>, Seq<char>)>, n: nat)
    ensures entries_sorted(stripped_meta(md, n)),
    decreases n,
{
    if n > 0 {
        lemma_stripped_sorted(md, (n - 1) as nat);
        match strip_text(md[n - 1].0, "meta:"@) {
            Some(k) => lemma_insert_sorted(stripped_meta(md, (n - 1) as nat), k, md[n - 1].1),
            None => {}
        }
    }
}

/// An optional auth ratio: absent means the default, present must parse.
pub open spec fn ratio_field(o: Option<Seq<char>>) -> Result<u64, Seq<char>> {
    match o {
        None => Ok(DEFAULT_REGION_AUTH_RATIO_BPS),
        Some(v) => match parse_u64_text(v) {
            Ok(n) => Ok(n),
            Err(p) => Err("invalid initial_auth_ratio_bps: "@ + parse_problem_text(p)),
        },
    }
}

/// A visibility name, or the error text.
pub open spec fn visibility_field(o: Option<Seq<char>>) -> Result<RegionVisibility, Seq<char>> {
    match o {
        None => Err("missing visibility"@),
        Some(v) => if v == "public"@ {
            Ok(RegionVisibility::Public)
        } else if v == "private"@ {
            Ok(RegionVisibility::Private)
        } else {
            Err("invalid region visibility: "@ + v)
        },
    }
}

/// The region an event creates, or why it does not create one.
pub open spec fn region_from_event(e: EventView) -> Result<RegionView, Seq<char>> {
    let md = e.vector_after.metadata;
    if !is_region_create(e) {
        Err("event is not a region creation event"@)
    } else if trimmed(e.event_hash).len() == 0 {
        Err("region event hash cannot be empty"@)
    } else if lookup(md, "region_name"@) is None {
        Err("missing region_name"@)
    } else if lookup(md, "normalized_name"@) is None {
        Err("missing normalized_name"@)
    } else if lookup(md, "section"@) is None {
        Err("missing section"@)
    } else if parse_u64_text(lookup(md, "section"@)->0) is Err {
        Err("invalid section: "@ + parse_problem_text(parse_u64_text(lookup(md, "section"@)->0)->Err_0))
    } else if ratio_field(lookup(md, "initial_auth_ratio_bps"@)) is Err {
        Err(ratio_field(lookup(md, "initial_auth_ratio_bps"@))->Err_0)
    } else if ratio_field(lookup(md, "initial_auth_ratio_bps"@))->Ok_0 == 0 {
        Err("initial_auth_ratio_bps must be greater than zero"@)
    } else if visibility_field(lookup(md, "visibility"@)) is Err {
        Err(visibility_field(lookup(md, "visibility"@))->Err_0)
    } else if lookup(md, "creator_public_key"@) is None {
        Err("missing creator_public_key"@)
    } else if lookup(md, "trigger_event_hash"@) is None {
        Err("missing trigger_event_hash"@)
    } else if lookup(md, "creation_proof_hash"@) is None {
        Err("missing creation_proof_hash"@)
    } else {
        Ok(RegionView {
            region_id: e.entity_id,
            region_root: e.event_hash,
            region_name: lookup(md, "region_name"@)->0,
            normalized_name: lookup(md, "normalized_name"@)->0,
            region_prefix: nonblank(lookup(md, "region_prefix"@)),
            suggested_title: nonblank(lookup(md, "suggested_title"@)),
            visibility: visibility_field(lookup(md, "visibility"@))->Ok_0,
            section: parse_u64_text(lookup(md, "section"@)->0)->Ok_0,
            auth_ratio_bps: ratio_field(lookup(md, "initial_auth_ratio_bps"@))->Ok_0,
            creator_public_key: lookup(md, "creator_public_key"@)->0,
            trigger_event_hash: lookup(md, "trigger_event_hash"@)->0,
            creation_proof_hash: lookup(md, "creation_proof_hash"@)->0,
            access_key_hash: nonblank(lookup(md, "access_key_hash"@)),
            created_at_ms: e.timestamp,
            updated_at_ms: e.timestamp,
            version: 1,
            metadata: stripped_meta(md, md.len()),
        })
    }
}

fn nonblank_value(o: Option<&String>) -> (r: Option<String>)
    ensures opt_str_view(r) == nonblank(match o { Some(v) => Some(v@), None => None }),
{
    match o {
        Some(v) => if is_blank(v.as_str()) { None } else { Some(v.clone()) },
        None => None,
    }
}

fn required(o: Option<&String>, missing: &str) -> (r: Result<String, KernelXError>)
    ensures
        match o {
            Some(v) => r is Ok && r->Ok_0@ == v@,
            None => invalid_state(r, missing@),
        },
{
    match o {
        Some(v) => Ok(v.clone()),
        None => Err(KernelXError::InvalidState(String::from_str(missing))),
    }
}

fn problem_message(p: ParseProblem) -> (r: &'static str)
    ensures r@ == parse_problem_text(p),
{
    match p {
        ParseProblem::Empty => "cannot parse integer from empty string",
        ParseProblem::InvalidDigit => "invalid digit found in string",
        ParseProblem::PosOverflow => "number too large to fit in target type",
    }
}

/// Derives the region a region-creation event creates from its snapshot metadata.
pub fn region_state_from_event(event: &VectorEvent) -> (r: Result<RegionState, KernelXError>)
    ensures
        match region_from_event(event@) {
            Ok(v) => r is Ok && r->Ok_0@ == v && r->Ok_0.metadata.wf(),
            Err(m) => invalid_state(r, m),
        },
{
    if !is_region_create_event(event) {
        return Err(KernelXError::InvalidState(String::from_str("event is not a region creation event")));
    }
    if is_blank(event.event_hash.as_str()) {
        return Err(KernelXError::InvalidState(String::from_str("region event hash cannot be empty")));
    }
    let md = &event.vector_after.metadata;
    let region_name = required(md.get("region_name"), "missing region_name")?;
    let normalized_name = required(md.get("normalized_name"), "missing normalized_name")?;
    let region_prefix = nonblank_value(md.get("region_prefix"));
    let section_text = required(md.get("section"), "missing section")?;
    let section = match parse_u64(section_text.as_str()) {
        Ok(n) => n,
        Err(p) => { return Err(KernelXError::InvalidState(crate::text::concat2("invalid section: ", problem_message(p)))); }
    };
    let auth_ratio_bps = match md.get("initial_auth_ratio_bps") {
        Some(v) => match parse_u64(v.as_str()) {
            Ok(n) => n,
            Err(p) => {
                return Err(KernelXError::InvalidState(crate::text::concat2("invalid initial_auth_ratio_bps: ", problem_message(p))));
            }
        },
        None => DEFAULT_REGION_AUTH_RATIO_BPS,
    };
    if auth_ratio_bps == 0 {
        return Err(KernelXError::InvalidState(String::from_str("initial_auth_ratio_bps must be greater than zero")));
    }
    let suggested_title = nonblank_value(md.get("suggested_title"));
    let visibility = match md.get("visibility") {
        Some(v) => {
            if crate::strmap::str_eq(v.as_str(), "public") {
                RegionVisibility::Public
            } else if crate::strmap::str_eq(v.as_str(), "private") {
                RegionVisibility::Private
            } else {
                return Err(KernelXError::InvalidState(crate::text::concat2("invalid region visibility: ", v.as_str())));
            }
        }
        None => { return Err(KernelXError::InvalidState(String::from_str("missing visibility"))); }
    };
    let creator_public_key = required(md.get("creator_public_key"), "missing creator_public_key")?;
    let trigger_event_hash = required(md.get("trigger_event_hash"), "missing trigger_event_hash")?;
    let creation_proof_hash = required(md.get("creation_proof_hash"), "missing creation_proof_hash")?;
    let access_key_hash = nonblank_value(md.get("access_key_hash"));
    let ghost mdv = md@;
    let mut metadata = StringMap::new();
    let mut i: usize = 0;
    while i < md.entries.len()
        invariant i <= md.entries.len(), mdv == md@, metadata@ == stripped_meta(mdv, i as nat),
        decreases md.entries.len() - i,
    {
        match strip_prefix_text(md.entries[i].0.as_str(), "meta:") {
            Some(k) => { metadata.insert(k, md.entries[i].1.clone()); }
            None => {}
        }
        i += 1;
    }
    proof { lemma_stripped_sorted(mdv, mdv.len()); }
    Ok(RegionState {
        region_id: event.entity_id.clone(),
        region_root: event.event_hash.clone(),
        region_name,
        normalized_name,
        region_prefix,
        suggested_title,
        visibility,
        section,
        auth_ratio_bps,
        creator_public_key,
        trigger_event_hash,
        creation_proof_hash,
        access_key_hash,
        created_at_ms: event.timestamp,
        updated_at_ms: event.timestamp,
        version: 1,
        metadata,
    })
}

/// Adds the region an event creates to a core.
pub fn apply_region_event(core: &mut CoreState, event: &VectorEvent) -> (r: Result<(), KernelXError>)
    requires old(core).wf(),
    ensures
        final(core).wf(),
        match region_from_event(event@) {
            Err(m) => invalid_state(r, m) && final(core)@ == old(core)@,
            Ok(v) => final(core)@ == core_insert(old(core)@, v).0
                && match core_insert(old(core)@, v).1 { None => r is Ok, Some(m) => invalid_state(r, m) },
        },
{
    let region = region_state_from_event(event)?;
    core.insert_region(region)?;
    Ok(())
}

/// The empty core.
pub open spec fn empty_core() -> CoreView {
    CoreView { regions: Seq::empty(), total_auth_ratio_bps: 0, core_root: core_root_of(Seq::empty(), 0, 0), version: 0 }
}

/// The core built from the region-creation events among the first `n` events.
pub open spec fn core_from_events(es: Seq<EventView>, n: nat) -> Result<CoreView, Seq<char>>
    decreases n,
{
    if n == 0 {
        Ok(empty_core())
    } else {
        match core_from_events(es, (n - 1) as nat) {
            Err(m) => Err(m),
            Ok(c) => if !is_region_create(es[n - 1]) {
                Ok(c)
            } else {
                match region_from_event(es[n - 1]) {
                    Err(m) => Err(m),
                    Ok(v) => match core_insert(c, v).1 {
                        Some(m) => Err(m),
                        None => Ok(core_insert(c, v).0),
                    },
                }
            },
        }
    }
}

proof fn lemma_core_err_stable(es: Seq<EventView>, t: nat, n: nat)
    requires t <= n, core_from_events(es, t) is Err,
    ensures core_from_events(es, n) == core_from_events(es, t),
    decreases n,
{
    if n > t { lemma_core_err_stable(es, t, (n - 1) as nat); }
}

/// Builds the core from the region-creation events, in order.
pub fn core_state_from_events(events: &[VectorEvent]) -> (r: Result<CoreState, KernelXError>)
    ensures
        match core_from_events(crate::dag::views(events@), events@.len()) {
            Ok(c) => r is Ok && r->Ok_0@ == c && r->Ok_0.wf(),
            Err(m) => invalid_state(r, m),
        },
        r matches Ok(c) ==> {
            &&& c@.version == c@.regions.len()
            &&& c@.total_auth_ratio_bps == crate::genesis::ratio_total(c@.regions)
            &&& c@.core_root == core_root_of(c@.regions, c@.total_auth_ratio_bps, c@.version)
            &&& forall|k: Seq<char>| #[trigger] lookup(c@.regions, k) is Some
                <==> crate::genesis::region_create_ids(crate::dag::views(events@), events@.len()).contains(k)
        },
{
    let ghost es = crate::dag::views(events@);
    proof { crate::genesis::lemma_core_from_events_shape(es, es.len()); }
    let mut core = CoreState::new();
    let mut i: usize = 0;
    while i < events.len()
        invariant
            i <= events.len(), es == crate::dag::views(events@), core.wf(),
            core_from_events(es, i as nat) == Ok::<CoreView, Seq<char>>(core@),
        decreases events.len() - i,
    {
        if is_region_create_event(&events[i]) {
            match apply_region_event(&mut core, &events[i]) {
                Ok(()) => {}
                Err(e) => {
                    proof { lemma_core_err_stable(es, (i + 1) as nat, es.len()); }
                    return Err(e);
                }
            }
        }
        i += 1;
    }
    Ok(core)
}

/// Whether a key opens a region: public regions are open to all, private regions to the
/// key whose hash the region stores.
pub open spec fn access_allowed(r: RegionView, key: Option<Seq<char>>) -> bool {
    match r.visibility {
        RegionVisibility::Public => true,
        RegionVisibility::Private => match (r.access_key_hash, key) {
            (Some(expected), Some(k)) => text_hash(k) == expected,
            _ => false,
        },
    }
}

/// Decides whether an access key opens a region.
pub fn authorize_region_access(region: &RegionState, access_key: Option<&str>) -> (r: bool)
    ensures r == access_allowed(region@, match access_key { Some(k) => Some(k@), None => None }),
{
    match region.visibility {
        RegionVisibility::Public => true,
        RegionVisibility::Private => {
            match &region.access_key_hash {
                None => false,
                Some(expected) => match access_key {
                    None => false,
                    Some(k) => {
                        let h = blake3_hex(k.as_bytes());
                        h == *expected
                    }
                },
            }
        }
    }
}

/// Three-way order of optional strings: none first, then by key order.
pub open spec fn opt_order(a: Option<Seq<char>>, b: Option<Seq<char>>) -> int {
    match (a, b) {
        (None, None) => 0,
        (None, Some(_)) => -1,
        (Some(_), None) => 1,
        (Some(x), Some(y)) => key_order(x, y),
    }
}

/// The listing order of regions: normalized name, prefix, section, then id.
pub open spec fn region_order(a: RegionView, b: RegionView) -> int {
    if key_order(a.normalized_name, b.normalized_name) != 0 {
        key_order(a.normalized_name, b.normalized_name)
    } else if opt_order(a.region_prefix, b.region_prefix) != 0 {
        opt_order(a.region_prefix, b.region_prefix)
    } else if a.section < b.section {
        -1
    } else if a.section > b.section {
        1
    } else {
        key_order(a.region_id, b.region_id)
    }
}

/// Inserts a region before the first listed region it orders before.
pub open spec fn insert_by_order(s: Seq<RegionView>, x: RegionView) -> Seq<RegionView>
    decreases s.len(),
{
    if s.len() == 0 {
        seq![x]
    } else if region_order(x, s[0]) < 0 {
        seq![x] + s
    } else {
        seq![s[0]] + insert_by_order(s.drop_first(), x)
    }
}

/// The regions listed in region order, each inserted in turn.
pub open spec fn listed_order(s: Seq<RegionView>) -> Seq<RegionView>
    decreases s.len(),
{
    if s.len() == 0 { Seq::empty() } else { insert_by_order(listed_order(s.drop_last()), s.last()) }
}

/// The regions of the first `n` region-creation events, keyed by id, later ones replacing
/// earlier ones.
pub open spec fn regions_from_events(es: Seq<EventView>, n: nat) -> Result<Seq<(Seq<char>, RegionView)>, Seq<char>>
    decreases n,
{
    if n == 0 {
        Ok(Seq::empty())
    } else {
        match regions_from_events(es, (n - 1) as nat) {
            Err(m) => Err(m),
            Ok(m) => if !is_region_create(es[n - 1]) {
                Ok(m)
            } else {
                match region_from_event(es[n - 1]) {
                    Err(e) => Err(e),
                    Ok(v) => Ok(sorted_insert(m, v.region_id, v)),
                }
            },
        }
    }
}

/// The region list of a set of events.
pub open spec fn region_listing(es: Seq<EventView>) -> Result<Seq<RegionView>, Seq<char>> {
    match regions_from_events(es, es.len()) {
        Err(m) => Err(m),
        Ok(m) => Ok(listed_order(m.map_values(|e: (Seq<char>, RegionView)| e.1))),
    }
}

proof fn lemma_regions_err_stable(es: Seq<EventView>, t: nat, n: nat)
    requires t <= n, regions_from_events(es, t) is Err,
    ensures regions_from_events(es, n) == regions_from_events(es, t),
    decreases n,
{
    if n > t { lemma_regions_err_stable(es, t, (n - 1) as nat); }
}

fn compare_opt(a: &Option<String>, b: &Option<String>) -> (r: Order)
    ensures r == crate::text::order_of(opt_order(opt_str_view(*a), opt_str_view(*b))),
{
    match (a, b) {
        (None, None) => Order::Equal,
        (None, Some(_)) => Order::Less,
        (Some(_), None) => Order::Greater,
        (Some(x), Some(y)) => compare_keys(x, y),
    }
}

/// Compares two regions in listing order.
fn compare_regions(a: &RegionState, b: &RegionState) -> (r: Order)
    ensures r == crate::text::order_of(region_order(a@, b@)),
{
    let n = compare_keys(&a.normalized_name, &b.normalized_name);
    if n != Order::Equal {
        return n;
    }
    let p = compare_opt(&a.region_prefix, &b.region_prefix);
    if p != Order::Equal {
        return p;
    }
    if a.section < b.section {
        Order::Less
    } else if a.section > b.section {
        Order::Greater
    } else {
        compare_keys(&a.region_id, &b.region_id)
    }
}

pub open spec fn region_views(v: Seq<RegionState>) -> Seq<RegionView> {
    v.map_values(|r: RegionState| r@)
}

/// Lists the regions of a set of events in listing order; a later event for the same
/// region id replaces the earlier one.
pub fn list_regions_from_events(events: &[VectorEvent]) -> (r: Result<Vec<RegionState>, KernelXError>)
    ensures
        match region_listing(crate::dag::views(events@)) {
            Ok(list) => r is Ok && region_views(r->Ok_0@) == list,
            Err(m) => invalid_state(r, m),
        },
{
    let ghost es = crate::dag::views(events@);
    let mut regions = RegionMap::new();
    let mut i: usize = 0;
    while i < events.len()
        invariant
            i <= events.len(), es == crate::dag::views(events@), regions.wf(),
            regions_from_events(es, i as nat) == Ok::<Seq<(Seq<char>, RegionView)>, Seq<char>>(regions@),
        decreases events.len() - i,
    {
        if is_region_create_event(&events[i]) {
            match region_state_from_event(&events[i]) {
                Ok(region) => {
                    let id = region.region_id.clone();
                    regions.insert(id, region);
                }
                Err(e) => {
                    proof { lemma_regions_err_stable(es, (i + 1) as nat, es.len()); }
                    return Err(e);
                }
            }
        }
        i += 1;
    }
    let ghost vals = regions@.map_values(|e: (Seq<char>, RegionView)| e.1);
    let mut out: Vec<RegionState> = Vec::new();
    let mut k: usize = 0;
    while k < regions.entries.len()
        invariant
            k <= regions.entries.len(), vals == regions@.map_values(|e: (Seq<char>, RegionView)| e.1),
            region_views(out@) == listed_order(vals.take(k as int)),
        decreases regions.entries.len() - k,
    {
        let x = regions.entries[k].1.duplicate();
        assert(x@ == vals[k as int]);
        let ghost before = region_views(out@);
        let mut p: usize = 0;
        assert(before.skip(0) =~= before);
        while p < out.len() && compare_regions(&x, &out[p]) != Order::Less
            invariant
                p <= out.len(), before == region_views(out@),
                insert_by_order(before, x@) == before.take(p as int) + insert_by_order(before.skip(p as int), x@),
            decreases out.len() - p,
        {
            proof {
                let t = before.skip(p as int);
                assert(t[0] == out@[p as int]@);
                assert(t.drop_first() =~= before.skip(p + 1));
                assert(before.take(p + 1) =~= before.take(p as int) + seq![t[0]]);
            }
            p += 1;
        }
        proof {
            let t = before.skip(p as int);
            if p < out.len() { assert(t[0] == out@[p as int]@); }
        }
        out.insert(p, x);
        proof {
            assert(vals.take(k + 1).drop_last() =~= vals.take(k as int));
            assert(region_views(out@) =~= before.take(p as int) + seq![x@] + before.skip(p as int));
        }
        k += 1;
    }
    assert(vals.take(vals.len() as int) =~= vals);
    Ok(out)
}

/// The first listed region whose normalized name and prefix match.
pub open spec fn first_match(list: Seq<RegionView>, name: Seq<char>, prefix: Option<Seq<char>>) -> Option<RegionView>
    decreases list.len(),
{
    if list.len() == 0 {
        None
    } else if list[0].normalized_name == norm_name(name) && norm_prefix(list[0].region_prefix) == norm_prefix(prefix) {
        Some(list[0])
    } else {
        first_match(list.drop_first(), name, prefix)
    }
}

/// Finds a region by its name and prefix, both normalized.
pub fn find_region_by_lookup_key(events: &[VectorEvent], region_name: &str, region_prefix: Option<&str>)
    -> (r: Result<Option<RegionState>, KernelXError>)
    ensures
        match region_listing(crate::dag::views(events@)) {
            Err(m) => invalid_state(r, m),
            Ok(list) => r is Ok && match first_match(list, region_name@, match region_prefix { Some(p) => Some(p@), None => None }) {
                Some(v) => r->Ok_0 is Some && r->Ok_0->0@ == v,
                None => r->Ok_0 is None,
            },
        },
{
    let regions = list_regions_from_events(events)?;
    let ghost list = region_views(regions@);
    let ghost pv = match region_prefix { Some(p) => Some(p@), None => None::<Seq<char>> };
    let name = trim_lower(region_name);
    let given: Option<String> = match region_prefix {
        Some(p) => Some(String::from_str(p)),
        None => None,
    };
    let prefix = normalize_prefix(&given);
    assert(opt_str_view(given) == pv);
    let mut i: usize = 0;
    assert(list.skip(0) =~= list);
    while i < regions.len()
        invariant
            i <= regions.len(), list == region_views(regions@), name@ == norm_name(region_name@),
            region_listing(crate::dag::views(events@)) == Ok::<Seq<RegionView>, Seq<char>>(list),
            pv == (match region_prefix { Some(p) => Some(p@), None => None::<Seq<char>> }),
            opt_str_view(prefix) == norm_prefix(pv),
            first_match(list, region_name@, pv) == first_match(list.skip(i as int), region_name@, pv),
        decreases regions.len() - i,
    {
        let region = &regions[i];
        proof {
            assert(list.skip(i as int)[0] == region@);
            assert(list.skip(i as int).drop_first() =~= list.skip(i + 1));
        }
        let their = normalize_prefix(&region.region_prefix);
        let same_prefix = match (&their, &prefix) {
            (None, None) => true,
            (Some(a), Some(b)) => *a == *b,
            _ => false,
        };
        if region.normalized_name == name && same_prefix {
            assert(norm_prefix(region@.region_prefix) == norm_prefix(pv));
            assert(region@.normalized_name == norm_name(region_name@));
            assert(first_match(list.skip(i as int), region_name@, pv) == Some(region@));
            assert(first_match(list, region_name@, pv) == Some(region@));
            let found = region.duplicate();
            assert(found@ == region@);
            return Ok(Some(found));
        }
        i += 1;
    }
    Ok(None)
}


/// The visibility a name gives, compared after trimming and ASCII lower-casing.
pub open spec fn visibility_named(name: Seq<char>) -> Option<RegionVisibility> {
    if lower_text(trimmed(name)) == "public"@ {
        Some(RegionVisibility::Public)
    } else if lower_text(trimmed(name)) == "private"@ {
        Some(RegionVisibility::Private)
    } else {
        None
    }
}

/// Reads a region visibility from its name ("public" or "private", any case, surrounding
/// white space ignored).
pub fn parse_region_visibility(value: &str) -> (r: Result<RegionVisibility, String>)
    ensures
        match visibility_named(value@) {
            Some(v) => r == Ok::<RegionVisibility, String>(v),
            None => r matches Err(m) && m@ == "invalid region visibility: "@ + lower_text(trimmed(value@)),
        },
{
    let name = trim_lower(value);
    if crate::strmap::str_eq(name.as_str(), "public") {
        Ok(RegionVisibility::Public)
    } else if crate::strmap::str_eq(name.as_str(), "private") {
        Ok(RegionVisibility::Private)
    } else {
        Err(concat2("invalid region visibility: ", name.as_str()))
    }
}

} // verus!
