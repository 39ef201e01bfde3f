use vstd::prelude::*;
use crate::dag::views;
use crate::error::KernelXError;
use crate::event::{EventView, VectorEvent};
use crate::record::{record_wf, RecordView, VectorRecordV1};
use crate::snapshot::{Snapshot, SnapshotView};
use crate::state::{VectorStateV1, VectorView};
use crate::strmap::{entries_sorted, find_key, keyed_view, lookup, put_entry, sorted_insert, str_eq};

verus! {

/// The first event whose id is `id`.
pub open spec fn first_with_id(es: Seq<EventView>, id: Seq<char>) -> Option<EventView>
    decreases es.len(),
{
    if es.len() == 0 { None } else if es[0].event_id == id { Some(es[0]) } else { first_with_id(es.drop_first(), id) }
}

/// The first event whose hash is `h`.
pub open spec fn first_with_hash(es: Seq<EventView>, h: Seq<char>) -> Option<EventView>
    decreases es.len(),
{
    if es.len() == 0 { None } else if es[0].event_hash == h { Some(es[0]) } else { first_with_hash(es.drop_first(), h) }
}

/// The first snapshot whose id is `id`.
pub open spec fn first_snapshot(ss: Seq<SnapshotView>, id: Seq<char>) -> Option<SnapshotView>
    decreases ss.len(),
{
    if ss.len() == 0 { None } else if ss[0].snapshot_id == id { Some(ss[0]) } else { first_snapshot(ss.drop_first(), id) }
}

pub open spec fn state_views(v: Seq<VectorStateV1>) -> Seq<VectorView> {
    v.map_values(|s: VectorStateV1| s@)
}

pub open spec fn record_views(v: Seq<VectorRecordV1>) -> Seq<RecordView> {
    v.map_values(|r: VectorRecordV1| r@)
}

pub open spec fn snapshot_views(v: Seq<Snapshot>) -> Seq<SnapshotView> {
    v.map_values(|s: Snapshot| s@)
}

pub open spec fn opt_view<T: View>(o: Option<T>) -> Option<T::V> {
    match o { Some(x) => Some(x@), None => None }
}

/// What `put_state` writes, `get_state` reads back: once a state is stored under its id,
/// the stored states give that state for the id and keep every other id's state.
pub proof fn lemma_put_state_then_get(entries: Seq<(Seq<char>, VectorView)>, state: VectorView, id: Seq<char>)
    ensures
        lookup(sorted_insert(entries, state.vector_id, state), state.vector_id) == Some(state),
        id != state.vector_id ==> lookup(sorted_insert(entries, state.vector_id, state), id) == lookup(entries, id),
{
    crate::strmap::lemma_lookup_insert(entries, state.vector_id, state, state.vector_id);
    crate::strmap::lemma_lookup_insert(entries, state.vector_id, state, id);
}

/// Keeps vector states and records, each keyed by id.
pub trait StateStore {
    /// The stored states, by vector id.
    spec fn state_entries(&self) -> Seq<(Seq<char>, VectorView)>;

    /// The stored records, by record id.
    spec fn record_entries(&self) -> Seq<(Seq<char>, RecordView)>;

    /// Whether this store's reads of states and records always succeed.
    spec fn state_reads_succeed(&self) -> bool;

    fn put_state(&mut self, state: VectorStateV1) -> (r: Result<(), KernelXError>)
        ensures r is Ok ==> final(self).state_entries() == sorted_insert(old(self).state_entries(), state.vector_id@, state@);

    fn get_state(&self, vector_id: &str) -> (r: Result<Option<VectorStateV1>, KernelXError>)
        ensures
            self.state_reads_succeed() ==> r is Ok,
            r is Ok ==> opt_view(r->Ok_0) == lookup(self.state_entries(), vector_id@);

    fn list_states(&self) -> (r: Result<Vec<VectorStateV1>, KernelXError>)
        ensures
            self.state_reads_succeed() ==> r is Ok,
            r is Ok ==> state_views(r->Ok_0@) == self.state_entries().map_values(|e: (Seq<char>, VectorView)| e.1);

    fn put_record(&mut self, record: VectorRecordV1) -> (r: Result<(), KernelXError>)
        ensures r is Ok ==> final(self).record_entries() == sorted_insert(old(self).record_entries(), record.record_id@, record@);

    fn get_record(&self, record_id: &str) -> (r: Result<Option<VectorRecordV1>, KernelXError>)
        ensures
            self.state_reads_succeed() ==> r is Ok,
            r is Ok ==> opt_view(r->Ok_0) == lookup(self.record_entries(), record_id@);

    fn list_records(&self) -> (r: Result<Vec<VectorRecordV1>, KernelXError>)
        ensures
            self.state_reads_succeed() ==> r is Ok,
            r is Ok ==> record_views(r->Ok_0@) == self.record_entries().map_values(|e: (Seq<char>, RecordView)| e.1);
}

/// Keeps canonical events in the order they were appended.
pub trait EventStore {
    spec fn event_log(&self) -> Seq<EventView>;

    /// Whether this store's reads of events always succeed.
    spec fn event_reads_succeed(&self) -> bool;

    fn append_event(&mut self, event: VectorEvent) -> (r: Result<(), KernelXError>)
        ensures r is Ok ==> final(self).event_log() == old(self).event_log().push(event@);

    fn get_event(&self, event_id: &str) -> (r: Result<Option<VectorEvent>, KernelXError>)
        ensures
            self.event_reads_succeed() ==> r is Ok,
            r is Ok ==> opt_view(r->Ok_0) == first_with_id(self.event_log(), event_id@);

    fn get_event_by_hash(&self, event_hash: &str) -> (r: Result<Option<VectorEvent>, KernelXError>)
        ensures
            self.event_reads_succeed() ==> r is Ok,
            r is Ok ==> opt_view(r->Ok_0) == first_with_hash(self.event_log(), event_hash@);

    fn list_events(&self) -> (r: Result<Vec<VectorEvent>, KernelXError>)
        ensures
            self.event_reads_succeed() ==> r is Ok,
            r is Ok ==> views(r->Ok_0@) == self.event_log();
}

/// Keeps snapshots in the order they were taken.
pub trait SnapshotStore {
    spec fn snapshot_log(&self) -> Seq<SnapshotView>;

    /// Whether this store's reads of snapshots always succeed.
    spec fn snapshot_reads_succeed(&self) -> bool;

    fn put_snapshot(&mut self, snapshot: Snapshot) -> (r: Result<(), KernelXError>)
        ensures r is Ok ==> final(self).snapshot_log() == old(self).snapshot_log().push(snapshot@);

    fn get_snapshot(&self, snapshot_id: &str) -> (r: Result<Option<Snapshot>, KernelXError>)
        ensures
            self.snapshot_reads_succeed() ==> r is Ok,
            r is Ok ==> opt_view(r->Ok_0) == first_snapshot(self.snapshot_log(), snapshot_id@);

    fn list_snapshots(&self) -> (r: Result<Vec<Snapshot>, KernelXError>)
        ensures
            self.snapshot_reads_succeed() ==> r is Ok,
            r is Ok ==> snapshot_views(r->Ok_0@) == self.snapshot_log();
}

/// Gives what a replay needs: every event, and the latest snapshot.
pub trait ReplayStore {
    spec fn replay_log(&self) -> Seq<EventView>;

    spec fn latest_snapshot(&self) -> Option<SnapshotView>;

    /// Whether this store's replay reads always succeed.
    spec fn replay_reads_succeed(&self) -> bool;

    fn load_events_for_replay(&self) -> (r: Result<Vec<VectorEvent>, KernelXError>)
        ensures
            self.replay_reads_succeed() ==> r is Ok,
            r is Ok ==> views(r->Ok_0@) == self.replay_log();

    fn load_latest_snapshot(&self) -> (r: Result<Option<Snapshot>, KernelXError>)
        ensures
            self.replay_reads_succeed() ==> r is Ok,
            r is Ok ==> opt_view(r->Ok_0) == self.latest_snapshot();
}

/// Everything the kernel engine stores.
pub trait KernelStore: StateStore + EventStore + SnapshotStore + ReplayStore {}

/// A store held in memory.
#[derive(Clone, Debug)]
pub struct MemoryStore {
    pub states: Vec<(String, VectorStateV1)>,
    pub records: Vec<(String, VectorRecordV1)>,
    pub events: Vec<VectorEvent>,
    pub snapshots: Vec<Snapshot>,
}

impl MemoryStore {
    /// States and records sorted by id, with well-formed metadata and parameters.
    pub open spec fn wf(&self) -> bool {
        &&& entries_sorted(keyed_view(self.states@))
        &&& entries_sorted(keyed_view(self.records@))
        &&& forall|i: int| 0 <= i < self.states@.len() ==> (#[trigger] self.states@[i]).1.type_metadata.wf()
        &&& forall|i: int| 0 <= i < self.records@.len() ==> record_wf(&(#[trigger] self.records@[i]).1)
        &&& forall|i: int| 0 <= i < self.states@.len() ==> (#[trigger] self.states@[i]).0@ == self.states@[i].1.vector_id@
        &&& forall|i: int| 0 <= i < self.records@.len() ==> (#[trigger] self.records@[i]).0@ == self.records@[i].1.record_id@
    }

    /// An empty store.
    pub fn new() -> (r: Self)
        ensures
            r.wf(),
            r.state_entries() == Seq::<(Seq<char>, VectorView)>::empty(),
            r.record_entries() == Seq::<(Seq<char>, RecordView)>::empty(),
            r.event_log() == Seq::<EventView>::empty(),
            r.snapshot_log() == Seq::<SnapshotView>::empty(),
    {
        let r = MemoryStore { states: Vec::new(), records: Vec::new(), events: Vec::new(), snapshots: Vec::new() };
        assert(keyed_view(r.states@) =~= Seq::<(Seq<char>, VectorView)>::empty());
        assert(keyed_view(r.records@) =~= Seq::<(Seq<char>, RecordView)>::empty());
        assert(views(r.events@) =~= Seq::<EventView>::empty());
        assert(snapshot_views(r.snapshots@) =~= Seq::<SnapshotView>::empty());
        r
    }
}

impl Default for MemoryStore {
    fn default() -> (r: Self)
        ensures
            r.wf(),
            r.state_entries() == Seq::<(Seq<char>, VectorView)>::empty(),
            r.record_entries() == Seq::<(Seq<char>, RecordView)>::empty(),
            r.event_log() == Seq::<EventView>::empty(),
            r.snapshot_log() == Seq::<SnapshotView>::empty(),
    {
        MemoryStore::new()
    }
}

fn copy_states(v: &Vec<(String, VectorStateV1)>) -> (r: Vec<VectorStateV1>)
    ensures state_views(r@) == keyed_view(v@).map_values(|e: (Seq<char>, VectorView)| e.1),
        forall|i: int| 0 <= i < v@.len() ==> (#[trigger] v@[i]).1.type_metadata.wf() ==> r@[i].type_metadata.wf(),
        r@.len() == v@.len(),
{
    let mut out: Vec<VectorStateV1> = Vec::new();
    let mut i: usize = 0;
    while i < v.len()
        invariant i <= v.len(), out@.len() == i, forall|j: int| 0 <= j < i ==> (#[trigger] out@[j])@ == v@[j].1@,
        decreases v.len() - i,
    {
        out.push(v[i].1.duplicate());
        i += 1;
    }
    assert(state_views(out@) =~= keyed_view(v@).map_values(|e: (Seq<char>, VectorView)| e.1));
    out
}

fn copy_records(v: &Vec<(String, VectorRecordV1)>) -> (r: Vec<VectorRecordV1>)
    ensures record_views(r@) == keyed_view(v@).map_values(|e: (Seq<char>, RecordView)| e.1),
{
    let mut out: Vec<VectorRecordV1> = Vec::new();
    let mut i: usize = 0;
    while i < v.len()
        invariant i <= v.len(), out@.len() == i, forall|j: int| 0 <= j < i ==> (#[trigger] out@[j])@ == v@[j].1@,
        decreases v.len() - i,
    {
        out.push(v[i].1.duplicate());
        i += 1;
    }
    assert(record_views(out@) =~= keyed_view(v@).map_values(|e: (Seq<char>, RecordView)| e.1));
    out
}

fn copy_events(v: &Vec<VectorEvent>) -> (r: Vec<VectorEvent>)
    ensures views(r@) == views(v@),
{
    let mut out: Vec<VectorEvent> = Vec::new();
    let mut i: usize = 0;
    while i < v.len()
        invariant i <= v.len(), out@.len() == i, forall|j: int| 0 <= j < i ==> (#[trigger] out@[j])@ == v@[j]@,
        decreases v.len() - i,
    {
        out.push(v[i].duplicate());
        i += 1;
    }
    assert(views(out@) =~= views(v@));
    out
}

impl StateStore for MemoryStore {
    open spec fn state_entries(&self) -> Seq<(Seq<char>, VectorView)> {
        keyed_view(self.states@)
    }

    open spec fn record_entries(&self) -> Seq<(Seq<char>, RecordView)> {
        keyed_view(self.records@)
    }

    open spec fn state_reads_succeed(&self) -> bool {
        true
    }

    fn put_state(&mut self, state: VectorStateV1) -> (r: Result<(), KernelXError>)
        ensures
            r is Ok,
            old(self).wf() && state.type_metadata.wf() ==> final(self).wf(),
            final(self).records == old(self).records, final(self).events == old(self).events,
            final(self).snapshots == old(self).snapshots,
    {
        let key = state.vector_id.clone();
        let ghost ok = state.type_metadata.wf();
        let ghost before = self.states@;
        put_entry(&mut self.states, key, state);
        proof {
            if ok && entries_sorted(keyed_view(before)) && forall|i: int| 0 <= i < before.len() ==> (#[trigger] before[i]).1.type_metadata.wf() {
                assert forall|i: int| 0 <= i < self.states@.len() implies (#[trigger] self.states@[i]).1.type_metadata.wf() by {
                    if self.states@[i].1 != state {
                        let m = choose|m: int| 0 <= m < before.len() && before[m].1 == self.states@[i].1;
                        assert(before[m].1.type_metadata.wf());
                    }
                }
            }
            if forall|i: int| 0 <= i < before.len() ==> (#[trigger] before[i]).0@ == before[i].1.vector_id@ {
                assert forall|i: int| 0 <= i < self.states@.len() implies (#[trigger] self.states@[i]).0@ == self.states@[i].1.vector_id@ by {
                    assert(keyed_view(self.states@)[i].0 == self.states@[i].0@);
                }
            }
        }
        Ok(())
    }

    fn get_state(&self, vector_id: &str) -> (r: Result<Option<VectorStateV1>, KernelXError>)
        ensures r is Ok, self.wf() ==> (r->Ok_0 matches Some(s) ==> s.type_metadata.wf() && s.vector_id@ == vector_id@),
    {
        match find_key(&self.states, vector_id) {
            Some(i) => {
                proof { if self.wf() { assert(self.states@[i as int].0@ == self.states@[i as int].1.vector_id@); } }
                Ok(Some(self.states[i].1.duplicate()))
            }
            None => Ok(None),
        }
    }

    fn list_states(&self) -> (r: Result<Vec<VectorStateV1>, KernelXError>)
        ensures r is Ok,
    {
        Ok(copy_states(&self.states))
    }

    fn put_record(&mut self, record: VectorRecordV1) -> (r: Result<(), KernelXError>)
        ensures
            r is Ok,
            old(self).wf() && record_wf(&record) ==> final(self).wf(),
            final(self).states == old(self).states, final(self).events == old(self).events,
            final(self).snapshots == old(self).snapshots,
    {
        let key = record.record_id.clone();
        let ghost ok = record_wf(&record);
        let ghost before = self.records@;
        let ghost rec = record;
        put_entry(&mut self.records, key, record);
        proof {
            if ok && forall|i: int| 0 <= i < before.len() ==> record_wf(&(#[trigger] before[i]).1) {
                assert forall|i: int| 0 <= i < self.records@.len() implies record_wf(&(#[trigger] self.records@[i]).1) by {
                    if self.records@[i].1 != rec {
                        let m = choose|m: int| 0 <= m < before.len() && before[m].1 == self.records@[i].1;
                        assert(record_wf(&before[m].1));
                    }
                }
            }
        }
        Ok(())
    }

    fn get_record(&self, record_id: &str) -> (r: Result<Option<VectorRecordV1>, KernelXError>)
        ensures r is Ok,
    {
        match find_key(&self.records, record_id) {
            Some(i) => Ok(Some(self.records[i].1.duplicate())),
            None => Ok(None),
        }
    }

    fn list_records(&self) -> (r: Result<Vec<VectorRecordV1>, KernelXError>)
        ensures r is Ok,
    {
        Ok(copy_records(&self.records))
    }
}

impl EventStore for MemoryStore {
    open spec fn event_log(&self) -> Seq<EventView> {
        views(self.events@)
    }

    open spec fn event_reads_succeed(&self) -> bool {
        true
    }

    fn append_event(&mut self, event: VectorEvent) -> (r: Result<(), KernelXError>)
        ensures
            r is Ok,
            final(self).states == old(self).states, final(self).records == old(self).records,
            final(self).snapshots == old(self).snapshots,
    {
        self.events.push(event);
        assert(views(self.events@) =~= views(old(self).events@).push(event@));
        Ok(())
    }

    fn get_event(&self, event_id: &str) -> (r: Result<Option<VectorEvent>, KernelXError>)
        ensures r is Ok,
    {
        let ghost es = views(self.events@);
        let mut i: usize = 0;
        assert(es.skip(0) =~= es);
        while i < self.events.len()
            invariant i <= self.events.len(), es == views(self.events@),
                first_with_id(es, event_id@) == first_with_id(es.skip(i as int), event_id@),
            decreases self.events.len() - i,
        {
            assert(es.skip(i as int).drop_first() =~= es.skip(i + 1));
            if str_eq(self.events[i].event_id.as_str(), event_id) {
                return Ok(Some(self.events[i].duplicate()));
            }
            i += 1;
        }
        Ok(None)
    }

    fn get_event_by_hash(&self, event_hash: &str) -> (r: Result<Option<VectorEvent>, KernelXError>)
        ensures r is Ok,
    {
        let ghost es = views(self.events@);
        let mut i: usize = 0;
        assert(es.skip(0) =~= es);
        while i < self.events.len()
            invariant i <= self.events.len(), es == views(self.events@),
                first_with_hash(es, event_hash@) == first_with_hash(es.skip(i as int), event_hash@),
            decreases self.events.len() - i,
        {
            assert(es.skip(i as int).drop_first() =~= es.skip(i + 1));
            if str_eq(self.events[i].event_hash.as_str(), event_hash) {
                return Ok(Some(self.events[i].duplicate()));
            }
            i += 1;
        }
        Ok(None)
    }

    fn list_events(&self) -> (r: Result<Vec<VectorEvent>, KernelXError>)
        ensures r is Ok,
    {
        Ok(copy_events(&self.events))
    }
}

impl SnapshotStore for MemoryStore {
    open spec fn snapshot_log(&self) -> Seq<SnapshotView> {
        snapshot_views(self.snapshots@)
    }

    open spec fn snapshot_reads_succeed(&self) -> bool {
        true
    }

    fn put_snapshot(&mut self, snapshot: Snapshot) -> (r: Result<(), KernelXError>)
        ensures
            r is Ok,
            final(self).states == old(self).states, final(self).records == old(self).records,
            final(self).events == old(self).events,
    {
        self.snapshots.push(snapshot);
        assert(snapshot_views(self.snapshots@) =~= snapshot_views(old(self).snapshots@).push(snapshot@));
        Ok(())
    }

    fn get_snapshot(&self, snapshot_id: &str) -> (r: Result<Option<Snapshot>, KernelXError>)
        ensures r is Ok,
    {
        let ghost ss = snapshot_views(self.snapshots@);
        let mut i: usize = 0;
        assert(ss.skip(0) =~= ss);
        while i < self.snapshots.len()
            invariant i <= self.snapshots.len(), ss == snapshot_views(self.snapshots@),
                first_snapshot(ss, snapshot_id@) == first_snapshot(ss.skip(i as int), snapshot_id@),
            decreases self.snapshots.len() - i,
        {
            assert(ss.skip(i as int).drop_first() =~= ss.skip(i + 1));
            if str_eq(self.snapshots[i].snapshot_id.as_str(), snapshot_id) {
                return Ok(Some(self.snapshots[i].duplicate()));
            }
            i += 1;
        }
        Ok(None)
    }

    fn list_snapshots(&self) -> (r: Result<Vec<Snapshot>, KernelXError>)
        ensures r is Ok,
    {
        let mut out: Vec<Snapshot> = Vec::new();
        let mut i: usize = 0;
        while i < self.snapshots.len()
            invariant i <= self.snapshots.len(), out@.len() == i, forall|j: int| 0 <= j < i ==> (#[trigger] out@[j])@ == self.snapshots@[j]@,
            decreases self.snapshots.len() - i,
        {
            out.push(self.snapshots[i].duplicate());
            i += 1;
        }
        assert(snapshot_views(out@) =~= snapshot_views(self.snapshots@));
        Ok(out)
    }
}

impl ReplayStore for MemoryStore {
    open spec fn replay_log(&self) -> Seq<EventView> {
        views(self.events@)
    }

    open spec fn latest_snapshot(&self) -> Option<SnapshotView> {
        if self.snapshots@.len() == 0 { None } else { Some(self.snapshots@.last()@) }
    }

    open spec fn replay_reads_succeed(&self) -> bool {
        true
    }

    fn load_events_for_replay(&self) -> (r: Result<Vec<VectorEvent>, KernelXError>)
        ensures r is Ok,
    {
        Ok(copy_events(&self.events))
    }

    fn load_latest_snapshot(&self) -> (r: Result<Option<Snapshot>, KernelXError>)
        ensures r is Ok,
    {
        if self.snapshots.len() == 0 {
            Ok(None)
        } else {
            Ok(Some(self.snapshots[self.snapshots.len() - 1].duplicate()))
        }
    }
}

impl KernelStore for MemoryStore {}

} // verus!
