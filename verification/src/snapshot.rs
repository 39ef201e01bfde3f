use vstd::prelude::*;
use crate::hash::{canonical_state_root_hash, canonical_tagged_hash, hash_hex};
use crate::replay::ReplayResult;
use crate::serialization::{blob_bytes, canonical_state_map_bytes, state_map_bytes, state_root_bytes};
use crate::state::{StateRoot, StateRootView};
use crate::strmap::StateMap;
use crate::event::{copy_strings, strings_view, VectorStateView};

verus! {

/// A point-in-time summary of a replay.
#[derive(Debug, Clone)]
pub struct Snapshot {
    pub snapshot_id: String,
    pub state_root: StateRoot,
    pub event_root: String,
    pub replay_hash: String,
    pub event_count: u64,
    pub logical_clock: u64,
    pub dag_heads: Vec<String>,
    pub state_bytes: Vec<u8>,
    pub created_at: u64,
}

pub struct SnapshotView {
    pub snapshot_id: Seq<char>,
    pub state_root: StateRootView,
    pub event_root: Seq<char>,
    pub replay_hash: Seq<char>,
    pub event_count: u64,
    pub logical_clock: u64,
    pub dag_heads: Seq<Seq<char>>,
    pub state_bytes: Seq<u8>,
    pub created_at: u64,
}

impl View for Snapshot {
    type V = SnapshotView;
    open spec fn view(&self) -> SnapshotView {
        SnapshotView {
            snapshot_id: self.snapshot_id@,
            state_root: self.state_root@,
            event_root: self.event_root@,
            replay_hash: self.replay_hash@,
            event_count: self.event_count,
            logical_clock: self.logical_clock,
            dag_heads: strings_view(self.dag_heads@),
            state_bytes: self.state_bytes@,
            created_at: self.created_at,
        }
    }
}

impl Snapshot {
    pub fn duplicate(&self) -> (r: Self)
        ensures r@ == self@,
    {
        let mut bytes: Vec<u8> = Vec::new();
        crate::encoding::push_bytes(&mut bytes, self.state_bytes.as_slice());
        assert(bytes@ =~= self.state_bytes@);
        Snapshot {
            snapshot_id: self.snapshot_id.clone(),
            state_root: self.state_root.duplicate(),
            event_root: self.event_root.clone(),
            replay_hash: self.replay_hash.clone(),
            event_count: self.event_count,
            logical_clock: self.logical_clock,
            dag_heads: copy_strings(&self.dag_heads),
            state_bytes: bytes,
            created_at: self.created_at,
        }
    }
}

/// The id of a snapshot of the given state bytes.
pub open spec fn snapshot_id_of(state_bytes: Seq<u8>) -> Seq<char> {
    hash_hex(blob_bytes("snapshot-v1"@, state_bytes))
}

/// The snapshot of a replay that ended in `state` with this root and replay hash.
pub open spec fn snapshot_of(state: Seq<(Seq<char>, VectorStateView)>, root: StateRootView, replay_hash: Seq<char>,
    dag_heads: Seq<Seq<char>>, created_at: u64) -> SnapshotView
{
    SnapshotView {
        snapshot_id: snapshot_id_of(state_map_bytes(state)),
        state_root: root,
        event_root: replay_hash,
        replay_hash,
        event_count: root.event_count,
        logical_clock: root.logical_clock,
        dag_heads,
        state_bytes: state_map_bytes(state),
        created_at,
    }
}

/// A snapshot matches the states and replay hash it is checked against: same id, same
/// state bytes and same replay hash.
pub open spec fn snapshot_matches(s: SnapshotView, state: Seq<(Seq<char>, VectorStateView)>, replay_hash: Seq<char>) -> bool {
    &&& s.snapshot_id == snapshot_id_of(state_map_bytes(state))
    &&& s.state_bytes == state_map_bytes(state)
    &&& s.replay_hash == replay_hash
}

/// A snapshot taken of a replay matches the states and replay hash of that replay, so
/// checking it against them accepts it.
pub proof fn lemma_snapshot_of_replay_matches(state: Seq<(Seq<char>, VectorStateView)>, root: StateRootView,
    replay_hash: Seq<char>, dag_heads: Seq<Seq<char>>, created_at: u64)
    ensures snapshot_matches(snapshot_of(state, root, replay_hash, dag_heads, created_at), state, replay_hash),
{
}

/// Takes a snapshot of a replay: its state bytes, root, replay hash and counters.
pub fn create_snapshot(replay_result: &ReplayResult, dag_heads: Vec<String>, created_at: u64) -> (r: Snapshot)
    ensures
        r@ == snapshot_of(replay_result.final_state@, replay_result.state_root@, replay_result.replay_hash@,
            strings_view(dag_heads@), created_at),
{
    let state_bytes = canonical_state_map_bytes(&replay_result.final_state);
    let snapshot_id = canonical_tagged_hash("snapshot-v1", state_bytes.as_slice());
    Snapshot {
        snapshot_id,
        state_root: replay_result.state_root.duplicate(),
        event_root: replay_result.replay_hash.clone(),
        replay_hash: replay_result.replay_hash.clone(),
        event_count: replay_result.state_root.event_count,
        logical_clock: replay_result.state_root.logical_clock,
        dag_heads,
        state_bytes,
        created_at,
    }
}

fn bytes_equal(a: &Vec<u8>, b: &Vec<u8>) -> (r: bool)
    ensures r == (a@ == b@),
{
    if a.len() != b.len() {
        return false;
    }
    let mut i: usize = 0;
    while i < a.len()
        invariant i <= a.len(), a@.len() == b@.len(), forall|j: int| 0 <= j < i ==> a@[j] == b@[j],
        decreases a.len() - i,
    {
        if a[i] != b[i] {
            return false;
        }
        i += 1;
    }
    assert(a@ =~= b@);
    true
}

/// Whether a snapshot matches the current states and replay hash: same id, same state
/// bytes, same replay hash (its state root always hashes).
pub fn verify_snapshot(snapshot: &Snapshot, current_state: &StateMap, current_replay_hash: &str) -> (r: Result<bool, String>)
    ensures
        r == Ok::<bool, String>(snapshot_matches(snapshot@, current_state@, current_replay_hash@)),
{
    let expected_state_bytes = canonical_state_map_bytes(current_state);
    let expected_snapshot_id = canonical_tagged_hash("snapshot-v1", expected_state_bytes.as_slice());
    let expected_root_hash = canonical_state_root_hash(&snapshot.state_root);
    let same_id = snapshot.snapshot_id == expected_snapshot_id;
    let same_bytes = bytes_equal(&snapshot.state_bytes, &expected_state_bytes);
    let same_hash = crate::strmap::str_eq(snapshot.replay_hash.as_str(), current_replay_hash);
    let hashed = !expected_root_hash.as_str().is_empty();
    Ok(same_id && same_bytes && same_hash && hashed)
}

} // verus!
