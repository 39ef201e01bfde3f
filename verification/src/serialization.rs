use vstd::prelude::*;
use vstd::string::StringSliceAdditionalSpecFns;
use crate::encoding::{be_bytes, push_bytes, push_u64_be};
use crate::event::{OperationTag, OperationType, VectorEvent, EventView, VectorState, VectorStateView, strings_view};
use crate::state::{StateRoot, StateRootView};
use crate::strmap::{StateMap, StringMap};

verus! {

pub open spec fn utf8(s: Seq<char>) -> Seq<u8> {
    vstd::utf8::encode_utf8(s)
}

/// A length-prefixed string: 8-byte big-endian byte length, then the UTF-8 bytes.
pub open spec fn ser_str(s: Seq<char>) -> Seq<u8> {
    be_bytes(utf8(s).len(), 8) + utf8(s)
}

/// A length-prefixed byte blob.
pub open spec fn ser_bytes(b: Seq<u8>) -> Seq<u8> {
    be_bytes(b.len(), 8) + b
}

pub open spec fn strs_body(ss: Seq<Seq<char>>) -> Seq<u8>
    decreases ss.len(),
{
    if ss.len() == 0 { Seq::empty() } else { strs_body(ss.drop_last()) + ser_str(ss.last()) }
}

/// A count-prefixed list of strings.
pub open spec fn ser_strs(ss: Seq<Seq<char>>) -> Seq<u8> {
    be_bytes(ss.len(), 8) + strs_body(ss)
}

pub open spec fn u64s_body(v: Seq<u64>) -> Seq<u8>
    decreases v.len(),
{
    if v.len() == 0 { Seq::empty() } else { u64s_body(v.drop_last()) + be_bytes(v.last() as nat, 8) }
}

/// A count-prefixed list of big-endian `u64`s.
pub open spec fn ser_u64s(v: Seq<u64>) -> Seq<u8> {
    be_bytes(v.len(), 8) + u64s_body(v)
}

pub open spec fn map_body(m: Seq<(Seq<char>, Seq<char>)>) -> Seq<u8>
    decreases m.len(),
{
    if m.len() == 0 { Seq::empty() } else { map_body(m.drop_last()) + ser_str(m.last().0) + ser_str(m.last().1) }
}

/// A count-prefixed list of key/value string pairs in map order.
pub open spec fn ser_map(m: Seq<(Seq<char>, Seq<char>)>) -> Seq<u8> {
    be_bytes(m.len(), 8) + map_body(m)
}

/// Canonical bytes of an operation tag.
pub open spec fn ser_op(op: OperationTag) -> Seq<u8> {
    match op {
        OperationTag::Other(name) => ser_str("OTHER"@) + ser_str(name),
        _ => ser_str(crate::event::operation_name(op)),
    }
}

/// Canonical bytes of an event's vector snapshot.
pub open spec fn ser_vector_state(v: VectorStateView) -> Seq<u8> {
    ser_u64s(v.components) + ser_str(v.owner_public_key) + ser_str(v.type_tag) + ser_map(v.metadata)
}

pub open spec fn bool_byte(b: bool) -> Seq<u8> {
    seq![if b { 1u8 } else { 0u8 }]
}

/// Canonical payload bytes of an event: every field but the payload hash, the event hash and the signature.
pub open spec fn payload_bytes(e: EventView) -> Seq<u8> {
    ser_str(e.event_id) + ser_strs(e.parent_hashes) + ser_str(e.region_id) + ser_str(e.entity_id)
        + ser_op(e.operation) + ser_vector_state(e.vector_before) + ser_vector_state(e.vector_after)
        + be_bytes(e.auth_ratio_bits as nat, 8) + bool_byte(e.certified) + ser_str(e.actor_public_key)
        + be_bytes(e.logical_clock as nat, 8) + be_bytes(e.timestamp as nat, 8)
}

/// Canonical full event bytes: the payload followed by the payload hash.
pub open spec fn event_bytes(e: EventView) -> Seq<u8> {
    payload_bytes(e) + ser_str(e.payload_hash)
}

/// Canonical bytes of a state root.
pub open spec fn state_root_bytes(r: StateRootView) -> Seq<u8> {
    ser_str(r.root_hash) + be_bytes(r.event_count as nat, 8) + be_bytes(r.logical_clock as nat, 8)
}

pub open spec fn state_map_body(m: Seq<(Seq<char>, VectorStateView)>) -> Seq<u8>
    decreases m.len(),
{
    if m.len() == 0 { Seq::empty() } else { state_map_body(m.drop_last()) + ser_str(m.last().0) + ser_vector_state(m.last().1) }
}

/// Canonical bytes of an entity-keyed state map.
pub open spec fn state_map_bytes(m: Seq<(Seq<char>, VectorStateView)>) -> Seq<u8> {
    be_bytes(m.len(), 8) + state_map_body(m)
}

/// A tagged blob: the tag string followed by the length-prefixed payload.
pub open spec fn blob_bytes(tag: Seq<char>, payload: Seq<u8>) -> Seq<u8> {
    ser_str(tag) + ser_bytes(payload)
}

/// Appends one byte.
pub fn write_u8(buf: &mut Vec<u8>, value: u8)
    ensures final(buf)@ == old(buf)@.push(value),
{
    buf.push(value);
}

/// Appends a boolean as one byte.
pub fn write_bool(buf: &mut Vec<u8>, value: bool)
    ensures final(buf)@ == old(buf)@ + bool_byte(value),
{
    write_u8(buf, if value { 1 } else { 0 });
    assert(buf@ =~= old(buf)@ + bool_byte(value));
}

/// Appends a `u64` big-endian.
pub fn write_u64(buf: &mut Vec<u8>, value: u64)
    ensures final(buf)@ == old(buf)@ + be_bytes(value as nat, 8),
{
    push_u64_be(buf, value);
}

/// Appends a binary64, given by its bit pattern, big-endian.
pub fn write_f64_bits(buf: &mut Vec<u8>, bits: u64)
    ensures final(buf)@ == old(buf)@ + be_bytes(bits as nat, 8),
{
    push_u64_be(buf, bits);
}

/// Appends a length-prefixed string.
pub fn write_str(buf: &mut Vec<u8>, value: &str)
    ensures final(buf)@ == old(buf)@ + ser_str(value@),
{
    let bytes = value.as_bytes();
    write_u64(buf, bytes.len() as u64);
    push_bytes(buf, bytes);
    assert(buf@ =~= old(buf)@ + ser_str(value@));
}

/// Appends a length-prefixed byte blob.
pub fn write_bytes(buf: &mut Vec<u8>, bytes: &[u8])
    ensures final(buf)@ == old(buf)@ + ser_bytes(bytes@),
{
    write_u64(buf, bytes.len() as u64);
    push_bytes(buf, bytes);
    assert(buf@ =~= old(buf)@ + ser_bytes(bytes@));
}

/// Appends a count-prefixed list of strings.
pub fn write_vec_str(buf: &mut Vec<u8>, values: &Vec<String>)
    ensures final(buf)@ == old(buf)@ + ser_strs(strings_view(values@)),
{
    let ghost ss = strings_view(values@);
    write_u64(buf, values.len() as u64);
    let ghost start = buf@;
    let mut i: usize = 0;
    while i < values.len()
        invariant i <= values.len(), ss == strings_view(values@), buf@ == start + strs_body(ss.take(i as int)),
        decreases values.len() - i,
    {
        write_str(buf, values[i].as_str());
        i += 1;
        assert(ss.take(i as int).drop_last() =~= ss.take(i - 1));
        assert(buf@ =~= start + strs_body(ss.take(i as int)));
    }
    assert(ss.take(values.len() as int) =~= ss);
    assert(buf@ =~= old(buf)@ + ser_strs(ss));
}

/// Appends a count-prefixed list of key/value pairs in map order.
pub fn write_btreemap_str_str(buf: &mut Vec<u8>, map: &StringMap)
    ensures final(buf)@ == old(buf)@ + ser_map(map@),
{
    let ghost m = map@;
    write_u64(buf, map.entries.len() as u64);
    let ghost start = buf@;
    let mut i: usize = 0;
    while i < map.entries.len()
        invariant i <= map.entries.len(), m == map@, buf@ == start + map_body(m.take(i as int)),
        decreases map.entries.len() - i,
    {
        write_str(buf, map.entries[i].0.as_str());
        write_str(buf, map.entries[i].1.as_str());
        i += 1;
        assert(m.take(i as int).drop_last() =~= m.take(i - 1));
        assert(buf@ =~= start + map_body(m.take(i as int)));
    }
    assert(m.take(map.entries.len() as int) =~= m);
    assert(buf@ =~= old(buf)@ + ser_map(m));
}

/// Appends a count-prefixed list of big-endian `u64`s.
pub fn write_vec_u64(buf: &mut Vec<u8>, values: &Vec<u64>)
    ensures final(buf)@ == old(buf)@ + ser_u64s(values@),
{
    write_u64(buf, values.len() as u64);
    let ghost start = buf@;
    let mut i: usize = 0;
    while i < values.len()
        invariant i <= values.len(), buf@ == start + u64s_body(values@.take(i as int)),
        decreases values.len() - i,
    {
        write_u64(buf, values[i]);
        i += 1;
        assert(values@.take(i as int).drop_last() =~= values@.take(i - 1));
        assert(buf@ =~= start + u64s_body(values@.take(i as int)));
    }
    assert(values@.take(values.len() as int) =~= values@);
    assert(buf@ =~= old(buf)@ + ser_u64s(values@));
}

/// Explicit, field-ordered binary serialization for canonical protocol paths.
pub trait CanonicalSerialize {
    spec fn spec_canonical_bytes(&self) -> Seq<u8>;

    fn canonical_bytes(&self) -> (r: Vec<u8>)
        ensures r@ == self.spec_canonical_bytes();
}

/// Appends the canonical bytes of an operation.
pub fn write_operation(buf: &mut Vec<u8>, op: &OperationType)
    ensures final(buf)@ == old(buf)@ + ser_op(op@),
{
    match op {
        OperationType::Other(name) => {
            write_str(buf, "OTHER");
            write_str(buf, name.as_str());
            assert(buf@ =~= old(buf)@ + ser_op(op@));
        }
        _ => {
            let name = op.canonical_name();
            write_str(buf, name.as_str());
        }
    }
}

/// Appends the canonical bytes of a vector snapshot.
pub fn write_vector_state(buf: &mut Vec<u8>, v: &VectorState)
    ensures final(buf)@ == old(buf)@ + ser_vector_state(v@),
{
    write_vec_u64(buf, &v.components);
    write_str(buf, v.owner_public_key.as_str());
    write_str(buf, v.type_tag.as_str());
    write_btreemap_str_str(buf, &v.metadata);
    assert(buf@ =~= old(buf)@ + ser_vector_state(v@));
}

impl CanonicalSerialize for OperationType {
    open spec fn spec_canonical_bytes(&self) -> Seq<u8> {
        ser_op(self@)
    }

    fn canonical_bytes(&self) -> (r: Vec<u8>) {
        let mut buf: Vec<u8> = Vec::new();
        write_operation(&mut buf, self);
        assert(buf@ =~= ser_op(self@));
        buf
    }
}

impl CanonicalSerialize for VectorState {
    open spec fn spec_canonical_bytes(&self) -> Seq<u8> {
        ser_vector_state(self@)
    }

    fn canonical_bytes(&self) -> (r: Vec<u8>) {
        let mut buf: Vec<u8> = Vec::new();
        write_vector_state(&mut buf, self);
        assert(buf@ =~= ser_vector_state(self@));
        buf
    }
}

/// Appends the canonical payload bytes of an event.
pub fn write_event_payload(buf: &mut Vec<u8>, event: &VectorEvent)
    ensures final(buf)@ == old(buf)@ + payload_bytes(event@),
{
    write_str(buf, event.event_id.as_str());
    write_vec_str(buf, &event.parent_hashes);
    write_str(buf, event.region_id.as_str());
    write_str(buf, event.entity_id.as_str());
    write_operation(buf, &event.operation);
    write_vector_state(buf, &event.vector_before);
    write_vector_state(buf, &event.vector_after);
    write_f64_bits(buf, event.auth_ratio_bits);
    write_bool(buf, event.certified);
    write_str(buf, event.actor_public_key.as_str());
    write_u64(buf, event.logical_clock);
    write_u64(buf, event.timestamp);
    assert(buf@ =~= old(buf)@ + payload_bytes(event@));
}

impl CanonicalSerialize for VectorEvent {
    open spec fn spec_canonical_bytes(&self) -> Seq<u8> {
        event_bytes(self@)
    }

    fn canonical_bytes(&self) -> (r: Vec<u8>) {
        canonical_event_bytes(self)
    }
}

impl CanonicalSerialize for StateRoot {
    open spec fn spec_canonical_bytes(&self) -> Seq<u8> {
        state_root_bytes(self@)
    }

    fn canonical_bytes(&self) -> (r: Vec<u8>) {
        let mut buf: Vec<u8> = Vec::new();
        write_str(&mut buf, self.root_hash.as_str());
        write_u64(&mut buf, self.event_count);
        write_u64(&mut buf, self.logical_clock);
        assert(buf@ =~= state_root_bytes(self@));
        buf
    }
}

/// Canonical payload bytes used for payload hashing and signing.
pub fn canonical_event_payload_bytes(event: &VectorEvent) -> (r: Vec<u8>)
    ensures r@ == payload_bytes(event@),
{
    let mut buf: Vec<u8> = Vec::new();
    write_event_payload(&mut buf, event);
    assert(buf@ =~= payload_bytes(event@));
    buf
}

/// Canonical full event bytes used for event hashing.
pub fn canonical_event_bytes(event: &VectorEvent) -> (r: Vec<u8>)
    ensures r@ == event_bytes(event@),
{
    let mut buf = canonical_event_payload_bytes(event);
    write_str(&mut buf, event.payload_hash.as_str());
    buf
}

/// Canonical event sequence bytes used for replay hashes.
pub fn canonical_event_sequence_bytes(event_hashes: &Vec<String>) -> (r: Vec<u8>)
    ensures r@ == ser_strs(strings_view(event_hashes@)),
{
    let mut buf: Vec<u8> = Vec::new();
    write_vec_str(&mut buf, event_hashes);
    assert(buf@ =~= ser_strs(strings_view(event_hashes@)));
    buf
}

/// Deterministic helper for protocol-wide hashable blobs.
pub fn canonical_blob_bytes(tag: &str, payload: &[u8]) -> (r: Vec<u8>)
    ensures r@ == blob_bytes(tag@, payload@),
{
    let mut buf: Vec<u8> = Vec::new();
    write_str(&mut buf, tag);
    write_bytes(&mut buf, payload);
    assert(buf@ =~= blob_bytes(tag@, payload@));
    buf
}

/// Appends a count-prefixed list of entity ids and snapshots in map order.
pub fn write_state_map(buf: &mut Vec<u8>, state: &StateMap)
    ensures final(buf)@ == old(buf)@ + state_map_bytes(state@),
{
    let ghost m = state@;
    write_u64(buf, state.entries.len() as u64);
    let ghost start = buf@;
    let mut i: usize = 0;
    while i < state.entries.len()
        invariant i <= state.entries.len(), m == state@, buf@ == start + state_map_body(m.take(i as int)),
        decreases state.entries.len() - i,
    {
        write_str(buf, state.entries[i].0.as_str());
        write_vector_state(buf, &state.entries[i].1);
        i += 1;
        assert(m.take(i as int).drop_last() =~= m.take(i - 1));
        assert(buf@ =~= start + state_map_body(m.take(i as int)));
    }
    assert(m.take(state.entries.len() as int) =~= m);
    assert(buf@ =~= old(buf)@ + state_map_bytes(m));
}

/// Canonical ordered state map bytes used for replay and state roots.
pub fn canonical_state_map_bytes(state: &StateMap) -> (r: Vec<u8>)
    ensures r@ == state_map_bytes(state@),
{
    let mut buf: Vec<u8> = Vec::new();
    write_state_map(&mut buf, state);
    assert(buf@ =~= state_map_bytes(state@));
    buf
}

impl CanonicalSerialize for StateMap {
    open spec fn spec_canonical_bytes(&self) -> Seq<u8> {
        state_map_bytes(self@)
    }

    fn canonical_bytes(&self) -> (r: Vec<u8>) {
        canonical_state_map_bytes(self)
    }
}

/// The payload bytes do not depend on the payload hash, the event hash or the signature,
/// so signing and hashing are not circular.
pub proof fn payload_bytes_ignore_hashes_and_signature(e: EventView, ph: Seq<char>, eh: Seq<char>, sig: Seq<char>)
    ensures payload_bytes(EventView { payload_hash: ph, event_hash: eh, signature: sig, ..e }) == payload_bytes(e),
{
}

/// The event bytes extend the payload bytes with the payload hash, and ignore the event hash and signature.
pub proof fn event_bytes_bind_payload_hash(e: EventView, eh: Seq<char>, sig: Seq<char>)
    ensures
        event_bytes(e) == payload_bytes(e) + ser_str(e.payload_hash),
        event_bytes(EventView { event_hash: eh, signature: sig, ..e }) == event_bytes(e),
{
}

} // verus!
