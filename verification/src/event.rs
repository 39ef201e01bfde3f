use vstd::prelude::*;
use vstd::string::StringExecFns;
use crate::strmap::StringMap;
use crate::text::{decimal, push_decimal, push_str, string_from_chars};

verus! {

/// The operation an event records.
#[derive(Clone, Debug)]
pub enum OperationType {
    OriginCreate,
    Certify,
    Transfer,
    Drain,
    Project,
    Reconstruct,
    Move,
    Rotate,
    Scale,
    Normalize,
    Constrain,
    Query,
    Record,
    Other(String),
}

/// The view of an operation tag: custom names as character sequences.
pub enum OperationTag {
    OriginCreate,
    Certify,
    Transfer,
    Drain,
    Project,
    Reconstruct,
    Move,
    Rotate,
    Scale,
    Normalize,
    Constrain,
    Query,
    Record,
    Other(Seq<char>),
}

impl View for OperationType {
    type V = OperationTag;
    open spec fn view(&self) -> OperationTag {
        match self {
            OperationType::OriginCreate => OperationTag::OriginCreate,
            OperationType::Certify => OperationTag::Certify,
            OperationType::Transfer => OperationTag::Transfer,
            OperationType::Drain => OperationTag::Drain,
            OperationType::Project => OperationTag::Project,
            OperationType::Reconstruct => OperationTag::Reconstruct,
            OperationType::Move => OperationTag::Move,
            OperationType::Rotate => OperationTag::Rotate,
            OperationType::Scale => OperationTag::Scale,
            OperationType::Normalize => OperationTag::Normalize,
            OperationType::Constrain => OperationTag::Constrain,
            OperationType::Query => OperationTag::Query,
            OperationType::Record => OperationTag::Record,
            OperationType::Other(s) => OperationTag::Other(s@),
        }
    }
}

/// The canonical upper-case name of an operation; a custom operation is named by itself.
pub open spec fn operation_name(op: OperationTag) -> Seq<char> {
    match op {
        OperationTag::OriginCreate => "ORIGIN_CREATE"@,
        OperationTag::Certify => "CERTIFY"@,
        OperationTag::Transfer => "TRANSFER"@,
        OperationTag::Drain => "DRAIN"@,
        OperationTag::Project => "PROJECT"@,
        OperationTag::Reconstruct => "RECONSTRUCT"@,
        OperationTag::Move => "MOVE"@,
        OperationTag::Rotate => "ROTATE"@,
        OperationTag::Scale => "SCALE"@,
        OperationTag::Normalize => "NORMALIZE"@,
        OperationTag::Constrain => "CONSTRAIN"@,
        OperationTag::Query => "QUERY"@,
        OperationTag::Record => "RECORD"@,
        OperationTag::Other(name) => name,
    }
}

impl OperationType {
    /// A copy of the operation.
    pub fn duplicate(&self) -> (r: Self)
        ensures r@ == self@,
    {
        match self {
            OperationType::OriginCreate => OperationType::OriginCreate,
            OperationType::Certify => OperationType::Certify,
            OperationType::Transfer => OperationType::Transfer,
            OperationType::Drain => OperationType::Drain,
            OperationType::Project => OperationType::Project,
            OperationType::Reconstruct => OperationType::Reconstruct,
            OperationType::Move => OperationType::Move,
            OperationType::Rotate => OperationType::Rotate,
            OperationType::Scale => OperationType::Scale,
            OperationType::Normalize => OperationType::Normalize,
            OperationType::Constrain => OperationType::Constrain,
            OperationType::Query => OperationType::Query,
            OperationType::Record => OperationType::Record,
            OperationType::Other(s) => OperationType::Other(s.clone()),
        }
    }

    /// The canonical name of the operation.
    pub fn canonical_name(&self) -> (r: String)
        ensures r@ == operation_name(self@),
    {
        match self {
            OperationType::OriginCreate => String::from_str("ORIGIN_CREATE"),
            OperationType::Certify => String::from_str("CERTIFY"),
            OperationType::Transfer => String::from_str("TRANSFER"),
            OperationType::Drain => String::from_str("DRAIN"),
            OperationType::Project => String::from_str("PROJECT"),
            OperationType::Reconstruct => String::from_str("RECONSTRUCT"),
            OperationType::Move => String::from_str("MOVE"),
            OperationType::Rotate => String::from_str("ROTATE"),
            OperationType::Scale => String::from_str("SCALE"),
            OperationType::Normalize => String::from_str("NORMALIZE"),
            OperationType::Constrain => String::from_str("CONSTRAIN"),
            OperationType::Query => String::from_str("QUERY"),
            OperationType::Record => String::from_str("RECORD"),
            OperationType::Other(s) => s.clone(),
        }
    }
}

/// The vector snapshot carried by a canonical event.
#[derive(Clone, Debug)]
pub struct VectorState {
    pub components: Vec<u64>,
    pub owner_public_key: String,
    pub type_tag: String,
    pub metadata: StringMap,
}

pub struct VectorStateView {
    pub components: Seq<u64>,
    pub owner_public_key: Seq<char>,
    pub type_tag: Seq<char>,
    pub metadata: Seq<(Seq<char>, Seq<char>)>,
}

impl View for VectorState {
    type V = VectorStateView;
    open spec fn view(&self) -> VectorStateView {
        VectorStateView {
            components: self.components@,
            owner_public_key: self.owner_public_key@,
            type_tag: self.type_tag@,
            metadata: self.metadata@,
        }
    }
}

/// Component-wise equality of two `u64` vectors.
pub fn u64s_equal(a: &Vec<u64>, b: &Vec<u64>) -> (r: bool)
    ensures r == (a@ == b@),
{
    if a.len() != b.len() {
        return false;
    }
    let mut i: usize = 0;
    while i < a.len()
        invariant i <= a.len(), a@.len() == b@.len(), forall|j: int| 0 <= j < i ==> a@[j] == b@[j],
        decreases a.len() - i,
    {
        if a[i] != b[i] {
            return false;
        }
        i += 1;
    }
    assert(a@ =~= b@);
    true
}

/// Entry-wise equality of two string maps.
pub fn string_maps_equal(a: &StringMap, b: &StringMap) -> (r: bool)
    ensures r == (a@ == b@),
{
    if a.entries.len() != b.entries.len() {
        return false;
    }
    let mut i: usize = 0;
    while i < a.entries.len()
        invariant i <= a.entries.len(), a@.len() == b@.len(), forall|j: int| 0 <= j < i ==> a@[j] == b@[j],
        decreases a.entries.len() - i,
    {
        if a.entries[i].0 != b.entries[i].0 || a.entries[i].1 != b.entries[i].1 {
            assert(a@[i as int] == (a.entries@[i as int].0@, a.entries@[i as int].1@));
            assert(b@[i as int] == (b.entries@[i as int].0@, b.entries@[i as int].1@));
            assert(a@[i as int] != b@[i as int]);
            return false;
        }
        i += 1;
    }
    assert(a@ =~= b@);
    true
}

impl VectorState {
    pub fn new(components: Vec<u64>, owner_public_key: String, type_tag: String, metadata: StringMap) -> (r: Self)
        ensures r@ == (VectorStateView { components: components@, owner_public_key: owner_public_key@, type_tag: type_tag@, metadata: metadata@ }),
            r.metadata == metadata,
    {
        VectorState { components, owner_public_key, type_tag, metadata }
    }

    /// An all-zero vector of the given length with empty metadata.
    pub fn zero(len: usize, owner_public_key: String, type_tag: String) -> (r: Self)
        ensures
            r@ == (VectorStateView { components: Seq::new(len as nat, |i: int| 0u64), owner_public_key: owner_public_key@,
                type_tag: type_tag@, metadata: Seq::empty() }),
            r.metadata.wf(),
    {
        let mut components: Vec<u64> = Vec::new();
        let mut i: usize = 0;
        while i < len
            invariant i <= len, components@ =~= Seq::new(i as nat, |j: int| 0u64),
            decreases len - i,
        {
            components.push(0);
            i += 1;
        }
        VectorState { components, owner_public_key, type_tag, metadata: StringMap::new() }
    }

    /// A copy with the same contents.
    pub fn duplicate(&self) -> (r: Self)
        ensures r@ == self@,
    {
        let mut components: Vec<u64> = Vec::new();
        let mut i: usize = 0;
        while i < self.components.len()
            invariant i <= self.components.len(), components@ =~= self.components@.take(i as int),
            decreases self.components.len() - i,
        {
            components.push(self.components[i]);
            i += 1;
        }
        assert(components@ =~= self.components@);
        VectorState {
            components,
            owner_public_key: self.owner_public_key.clone(),
            type_tag: self.type_tag.clone(),
            metadata: self.metadata.duplicate(),
        }
    }

    /// Whether two snapshots are equal.
    pub fn same_as(&self, other: &Self) -> (r: bool)
        ensures r == (self@ == other@),
    {
        u64s_equal(&self.components, &other.components)
            && self.owner_public_key == other.owner_public_key
            && self.type_tag == other.type_tag
            && string_maps_equal(&self.metadata, &other.metadata)
    }
}

/// A canonical, hash-linked event.
///
/// `auth_ratio_bits` holds the IEEE-754 bit pattern of the event's auth ratio, which
/// is a binary64 in `[0, 1]` for a valid event.
#[derive(Clone, Debug)]
pub struct VectorEvent {
    pub event_id: String,
    pub parent_hashes: Vec<String>,
    pub region_id: String,
    pub entity_id: String,
    pub operation: OperationType,
    pub vector_before: VectorState,
    pub vector_after: VectorState,
    pub auth_ratio_bits: u64,
    pub certified: bool,
    pub actor_public_key: String,
    pub logical_clock: u64,
    pub timestamp: u64,
    pub payload_hash: String,
    pub event_hash: String,
    pub signature: String,
}

pub struct EventView {
    pub event_id: Seq<char>,
    pub parent_hashes: Seq<Seq<char>>,
    pub region_id: Seq<char>,
    pub entity_id: Seq<char>,
    pub operation: OperationTag,
    pub vector_before: VectorStateView,
    pub vector_after: VectorStateView,
    pub auth_ratio_bits: u64,
    pub certified: bool,
    pub actor_public_key: Seq<char>,
    pub logical_clock: u64,
    pub timestamp: u64,
    pub payload_hash: Seq<char>,
    pub event_hash: Seq<char>,
    pub signature: Seq<char>,
}

pub open spec fn strings_view(v: Seq<String>) -> Seq<Seq<char>> {
    v.map_values(|s: String| s@)
}

impl View for VectorEvent {
    type V = EventView;
    open spec fn view(&self) -> EventView {
        EventView {
            event_id: self.event_id@,
            parent_hashes: strings_view(self.parent_hashes@),
            region_id: self.region_id@,
            entity_id: self.entity_id@,
            operation: self.operation@,
            vector_before: self.vector_before@,
            vector_after: self.vector_after@,
            auth_ratio_bits: self.auth_ratio_bits,
            certified: self.certified,
            actor_public_key: self.actor_public_key@,
            logical_clock: self.logical_clock,
            timestamp: self.timestamp,
            payload_hash: self.payload_hash@,
            event_hash: self.event_hash@,
            signature: self.signature@,
        }
    }
}

/// A copy of a list of strings.
pub fn copy_strings(v: &Vec<String>) -> (r: Vec<String>)
    ensures strings_view(r@) == strings_view(v@), r@.len() == v@.len(),
{
    let mut out: Vec<String> = Vec::new();
    let mut i: usize = 0;
    while i < v.len()
        invariant i <= v.len(), out@.len() == i, forall|j: int| 0 <= j < i ==> (#[trigger] out@[j])@ == v@[j]@,
        decreases v.len() - i,
    {
        out.push(v[i].clone());
        i += 1;
    }
    assert(strings_view(out@) =~= strings_view(v@));
    out
}

/// The canonical event id of the `sequence`-th event of an entity in a region.
pub open spec fn event_id_text(entity_id: Seq<char>, region_id: Seq<char>, op: OperationTag, logical_clock: u64, sequence: u64) -> Seq<char> {
    "evt:"@ + region_id + ":"@ + entity_id + ":"@ + operation_name(op) + ":"@ + decimal(logical_clock as nat) + ":"@ + decimal(sequence as nat)
}

impl VectorEvent {
    /// An unsigned, unhashed event.
    pub fn new(event_id: String, parent_hashes: Vec<String>, region_id: String, entity_id: String, operation: OperationType,
        vector_before: VectorState, vector_after: VectorState, auth_ratio_bits: u64, certified: bool,
        actor_public_key: String, logical_clock: u64, timestamp: u64) -> (r: Self)
        ensures
            r@ == (EventView {
                event_id: event_id@, parent_hashes: strings_view(parent_hashes@), region_id: region_id@, entity_id: entity_id@,
                operation: operation@, vector_before: vector_before@, vector_after: vector_after@, auth_ratio_bits,
                certified, actor_public_key: actor_public_key@, logical_clock, timestamp,
                payload_hash: Seq::empty(), event_hash: Seq::empty(), signature: Seq::empty(),
            }),
            r.vector_before == vector_before, r.vector_after == vector_after, r.parent_hashes == parent_hashes,
    {
        VectorEvent {
            event_id, parent_hashes, region_id, entity_id, operation, vector_before, vector_after, auth_ratio_bits,
            certified, actor_public_key, logical_clock, timestamp,
            payload_hash: String::new(), event_hash: String::new(), signature: String::new(),
        }
    }

    /// The canonical id of an entity's event.
    pub fn canonical_event_id(entity_id: &str, region_id: &str, operation: &OperationType, logical_clock: u64, sequence: u64) -> (r: String)
        ensures r@ == event_id_text(entity_id@, region_id@, operation@, logical_clock, sequence),
    {
        let mut v: Vec<char> = Vec::new();
        push_str(&mut v, "evt:");
        push_str(&mut v, region_id);
        push_str(&mut v, ":");
        push_str(&mut v, entity_id);
        push_str(&mut v, ":");
        let name = operation.canonical_name();
        push_str(&mut v, name.as_str());
        push_str(&mut v, ":");
        push_decimal(&mut v, logical_clock as u128);
        push_str(&mut v, ":");
        push_decimal(&mut v, sequence as u128);
        assert(v@ =~= event_id_text(entity_id@, region_id@, operation@, logical_clock, sequence));
        string_from_chars(v.as_slice())
    }

    /// A copy with the same contents.
    pub fn duplicate(&self) -> (r: Self)
        ensures r@ == self@,
    {
        VectorEvent {
            event_id: self.event_id.clone(),
            parent_hashes: copy_strings(&self.parent_hashes),
            region_id: self.region_id.clone(),
            entity_id: self.entity_id.clone(),
            operation: self.operation.duplicate(),
            vector_before: self.vector_before.duplicate(),
            vector_after: self.vector_after.duplicate(),
            auth_ratio_bits: self.auth_ratio_bits,
            certified: self.certified,
            actor_public_key: self.actor_public_key.clone(),
            logical_clock: self.logical_clock,
            timestamp: self.timestamp,
            payload_hash: self.payload_hash.clone(),
            event_hash: self.event_hash.clone(),
            signature: self.signature.clone(),
        }
    }
}

} // verus!
