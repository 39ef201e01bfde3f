use vstd::prelude::*;
use crate::dag::views;
use crate::error::KernelXError;
use crate::event::VectorEvent;
use crate::record::{RecordView, VectorRecordV1};
use crate::snapshot::Snapshot;
use crate::state::{VectorStateV1, VectorView};
use crate::storage::{first_snapshot, first_with_hash, first_with_id, opt_view, record_views, snapshot_views, state_views,
    EventStore, ReplayStore, SnapshotStore, StateStore};
use crate::strmap::lookup;

verus! {

/// The stored state of a vector.
pub fn get_vector<S: StateStore>(store: &S, vector_id: &str) -> (r: Result<Option<VectorStateV1>, KernelXError>)
    ensures
        store.state_reads_succeed() ==> r is Ok,
        r is Ok ==> opt_view(r->Ok_0) == lookup(store.state_entries(), vector_id@),
{
    store.get_state(vector_id)
}

/// Every stored state, by vector id.
pub fn list_vectors<S: StateStore>(store: &S) -> (r: Result<Vec<VectorStateV1>, KernelXError>)
    ensures
        store.state_reads_succeed() ==> r is Ok,
        r is Ok ==> state_views(r->Ok_0@) == store.state_entries().map_values(|e: (Seq<char>, VectorView)| e.1),
{
    store.list_states()
}

/// A stored record.
pub fn get_record<S: StateStore>(store: &S, record_id: &str) -> (r: Result<Option<VectorRecordV1>, KernelXError>)
    ensures
        store.state_reads_succeed() ==> r is Ok,
        r is Ok ==> opt_view(r->Ok_0) == lookup(store.record_entries(), record_id@),
{
    store.get_record(record_id)
}

/// Every stored record, by record id.
pub fn list_records<S: StateStore>(store: &S) -> (r: Result<Vec<VectorRecordV1>, KernelXError>)
    ensures
        store.state_reads_succeed() ==> r is Ok,
        r is Ok ==> record_views(r->Ok_0@) == store.record_entries().map_values(|e: (Seq<char>, RecordView)| e.1),
{
    store.list_records()
}

/// The first stored event with an id.
pub fn get_event<S: EventStore>(store: &S, event_id: &str) -> (r: Result<Option<VectorEvent>, KernelXError>)
    ensures
        store.event_reads_succeed() ==> r is Ok,
        r is Ok ==> opt_view(r->Ok_0) == first_with_id(store.event_log(), event_id@),
{
    store.get_event(event_id)
}

/// The first stored event with a hash.
pub fn get_event_by_hash<S: EventStore>(store: &S, event_hash: &str) -> (r: Result<Option<VectorEvent>, KernelXError>)
    ensures
        store.event_reads_succeed() ==> r is Ok,
        r is Ok ==> opt_view(r->Ok_0) == first_with_hash(store.event_log(), event_hash@),
{
    store.get_event_by_hash(event_hash)
}

/// Every stored event, in append order.
pub fn list_events<S: EventStore>(store: &S) -> (r: Result<Vec<VectorEvent>, KernelXError>)
    ensures
        store.event_reads_succeed() ==> r is Ok,
        r is Ok ==> views(r->Ok_0@) == store.event_log(),
{
    store.list_events()
}

/// A stored snapshot.
pub fn get_snapshot<S: SnapshotStore>(store: &S, snapshot_id: &str) -> (r: Result<Option<Snapshot>, KernelXError>)
    ensures
        store.snapshot_reads_succeed() ==> r is Ok,
        r is Ok ==> opt_view(r->Ok_0) == first_snapshot(store.snapshot_log(), snapshot_id@),
{
    store.get_snapshot(snapshot_id)
}

/// Every stored snapshot, in the order taken.
pub fn list_snapshots<S: SnapshotStore>(store: &S) -> (r: Result<Vec<Snapshot>, KernelXError>)
    ensures
        store.snapshot_reads_succeed() ==> r is Ok,
        r is Ok ==> snapshot_views(r->Ok_0@) == store.snapshot_log(),
{
    store.list_snapshots()
}

/// The events a replay runs over.
pub fn load_events_for_replay<S: ReplayStore>(store: &S) -> (r: Result<Vec<VectorEvent>, KernelXError>)
    ensures
        store.replay_reads_succeed() ==> r is Ok,
        r is Ok ==> views(r->Ok_0@) == store.replay_log(),
{
    store.load_events_for_replay()
}

/// The latest snapshot.
pub fn load_latest_snapshot<S: ReplayStore>(store: &S) -> (r: Result<Option<Snapshot>, KernelXError>)
    ensures
        store.replay_reads_succeed() ==> r is Ok,
        r is Ok ==> opt_view(r->Ok_0) == store.latest_snapshot(),
{
    store.load_latest_snapshot()
}

} // verus!
