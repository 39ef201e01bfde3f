use vstd::prelude::*;
use crate::crypto::{blake3_digest, blake3_hash};
use crate::encoding::{hex_lower, push_bytes, push_hex, lemma_hex_lower_len};
use crate::event::{EventView, VectorEvent, strings_view};
use crate::serialization::{blob_bytes, canonical_blob_bytes, canonical_event_bytes, canonical_event_payload_bytes,
    canonical_event_sequence_bytes, event_bytes, payload_bytes, ser_strs, state_root_bytes, CanonicalSerialize};
use crate::state::StateRoot;
use crate::text::string_from_chars;

verus! {

/// Lowercase hex of the BLAKE3 digest.
pub open spec fn hash_hex(data: Seq<u8>) -> Seq<char> {
    hex_lower(blake3_digest(data))
}

/// The BLAKE3 digest of the bytes, hex encoded (64 lowercase hex digits).
pub fn blake3_hex(bytes: &[u8]) -> (r: String)
    ensures r@ == hash_hex(bytes@), r@.len() == 64, crate::encoding::is_lower_hex(r@),
{
    let digest = blake3_hash(bytes);
    let mut out: Vec<char> = Vec::new();
    push_hex(&mut out, digest.as_slice());
    proof {
        lemma_hex_lower_len(digest@);
        let h = hex_lower(digest@);
        assert forall|i: int| 0 <= i < h.len() implies {
            let c = #[trigger] h[i] as u32;
            (48 <= c <= 57) || (97 <= c <= 102)
        } by {
            crate::signature::lemma_hex_lower_index(digest@, i / 2);
            assert(i == 2 * (i / 2) || i == 2 * (i / 2) + 1);
        }
    }
    assert(out@ =~= hash_hex(bytes@));
    string_from_chars(out.as_slice())
}

/// Hash of the canonical event payload.
pub fn canonical_payload_hash(event: &VectorEvent) -> (r: String)
    ensures r@ == hash_hex(payload_bytes(event@)), r@.len() == 64,
{
    let bytes = canonical_event_payload_bytes(event);
    blake3_hex(bytes.as_slice())
}

/// Hash of the full canonical event record, excluding signature.
pub fn canonical_event_hash(event: &VectorEvent) -> (r: String)
    ensures r@ == hash_hex(event_bytes(event@)), r@.len() == 64,
{
    let bytes = canonical_event_bytes(event);
    blake3_hex(bytes.as_slice())
}

/// Hash of the canonical state root struct.
pub fn canonical_state_root_hash(state_root: &StateRoot) -> (r: String)
    ensures r@ == hash_hex(state_root_bytes(state_root@)), r@.len() == 64,
{
    let bytes = state_root.canonical_bytes();
    blake3_hex(bytes.as_slice())
}

/// The bytes a replay hash is taken over.
pub open spec fn replay_material(event_hashes: Seq<Seq<char>>) -> Seq<u8> {
    blob_bytes("replay-v1"@, Seq::empty()) + ser_strs(event_hashes)
}

/// Hash of a deterministic replay material blob.
pub fn canonical_replay_hash(event_hashes: &Vec<String>) -> (r: String)
    ensures r@ == hash_hex(replay_material(strings_view(event_hashes@))), r@.len() == 64,
{
    let mut buf: Vec<u8> = Vec::new();
    let empty: Vec<u8> = Vec::new();
    let head = canonical_blob_bytes("replay-v1", empty.as_slice());
    push_bytes(&mut buf, head.as_slice());
    let seq = canonical_event_sequence_bytes(event_hashes);
    push_bytes(&mut buf, seq.as_slice());
    assert(empty@ =~= Seq::<u8>::empty());
    assert(buf@ =~= replay_material(strings_view(event_hashes@)));
    blake3_hex(buf.as_slice())
}

/// Generic deterministic hash helper for any tagged canonical blob.
pub fn canonical_tagged_hash(tag: &str, payload: &[u8]) -> (r: String)
    ensures r@ == hash_hex(blob_bytes(tag@, payload@)), r@.len() == 64,
{
    let bytes = canonical_blob_bytes(tag, payload);
    blake3_hex(bytes.as_slice())
}

/// An event with its payload hash and then its event hash filled in.
pub open spec fn sealed_event(e: EventView) -> EventView {
    let with_payload = EventView { payload_hash: hash_hex(payload_bytes(e)), ..e };
    EventView { event_hash: hash_hex(event_bytes(with_payload)), ..with_payload }
}

/// An event's payload hash does not depend on its payload hash, event hash or signature
/// fields: changing them leaves the payload hash as it was.
pub proof fn lemma_payload_hash_ignores_hashes_and_signature(e: EventView, ph: Seq<char>, eh: Seq<char>, sig: Seq<char>)
    ensures
        hash_hex(payload_bytes(EventView { payload_hash: ph, event_hash: eh, signature: sig, ..e }))
            == hash_hex(payload_bytes(e)),
{
    crate::serialization::payload_bytes_ignore_hashes_and_signature(e, ph, eh, sig);
}

/// Fills in an event's payload hash, then its event hash.
pub fn seal_event(event: VectorEvent) -> (r: VectorEvent)
    ensures r@ == sealed_event(event@), r@.event_hash.len() == 64,
{
    let mut event = event;
    event.payload_hash = canonical_payload_hash(&event);
    event.event_hash = canonical_event_hash(&event);
    event
}

} // verus!
