use vstd::prelude::*;
use vstd::string::StringExecFns;
use crate::certification::{certification_of, certify_state};
use crate::consensus::{accept_record, accepts, ConsensusPolicy};
use crate::dag::{compare_events, event_order, views};
use crate::drain::{apply_drain, drain_fee, effective_drain_bps};
use crate::transfer::{credited, debited, transfer_components, transfer_params, transfer_record};
use crate::reconstruction::{loss_exceeds, reconstruct_vector, reconstructed_view, restored_components, settled_values, SettlementOutcome};
use crate::origin::{create_origin_vector, origin_proof, origin_valid};
use crate::projection::{exceeds_balance, project_vector, projected_view};
use crate::state::{new_vector_view, OriginView};
use crate::error::{invalid_state, KernelXError};
use crate::event::{event_id_text, EventView, OperationTag, OperationType, VectorEvent, VectorState, VectorStateView};
use crate::hash::{seal_event, sealed_event};
use crate::ratio::{ratio_bits, ratio_to_bits};
use crate::record::{make_record_id, record_id_material, record_wf, params_text, OperationKind, OperationKindView, ParamValue, ParamView, RecordParams, RecordView, VectorRecordV1};
use crate::hash::hash_hex;
use crate::state::{sum_u128, lemma_sum_le};
use crate::text::decimal;
use crate::state::{now_ms, VectorStateV1, VectorType, VectorView};
use crate::storage::{first_with_hash, EventStore, MemoryStore, ReplayStore, StateStore};
use crate::strmap::{lookup, sorted_insert, StringMap};
use crate::text::{concat4, is_blank, trimmed, Order};
use crate::region::{access_allowed, authorize_region_access, build_region_genesis_event, find_region_by_lookup_key, first_match, genesis_event, is_region_create_event, list_regions_from_events, region_from_event, region_listing, region_state_from_event, request_problem, request_signature_check, validate_region_create_request, verify_region_create_request_signature, RegionCreateRequest, RegionState, RegionView};
use crate::replay::{replay_events, replay_result_is, replay_spec, ReplayResult};
use crate::state::StateRoot;
use crate::stateroot::{compute_state_root, state_set_root, vector_views};
use crate::validation::{event_check, reports, validate_event, validate_state};
use crate::acceptance::{origin_inputs_valid, event_ready, lemma_commit_limit, lemma_commit_ok, lemma_state_valid_no_problem, log_has_room, state_valid};

verus! {

// ---------------------------------------------------------------------------
// Event order

/// Inserts an event after every event that does not order after it.
pub open spec fn insert_event(s: Seq<EventView>, x: EventView) -> Seq<EventView>
    decreases s.len(),
{
    if s.len() == 0 {
        seq![x]
    } else if event_order(x, s[0]) < 0 {
        seq![x] + s
    } else {
        seq![s[0]] + insert_event(s.drop_first(), x)
    }
}

/// The events ordered by (logical clock, timestamp, hash, id); equal keys keep their
/// append order.
pub open spec fn sorted_events(s: Seq<EventView>) -> Seq<EventView>
    decreases s.len(),
{
    if s.len() == 0 { Seq::empty() } else { insert_event(sorted_events(s.drop_last()), s.last()) }
}

proof fn lemma_insert_event_multiset(s: Seq<EventView>, x: EventView)
    ensures insert_event(s, x).to_multiset() == s.to_multiset().insert(x),
    decreases s.len(),
{
    broadcast use vstd::seq_lib::group_to_multiset_ensures;
    if s.len() == 0 {
        assert(seq![x] =~= Seq::<EventView>::empty().push(x));
    } else if event_order(x, s[0]) < 0 {
        vstd::seq_lib::lemma_multiset_commutative(seq![x], s);
        assert(seq![x] =~= Seq::<EventView>::empty().push(x));
    } else {
        lemma_insert_event_multiset(s.drop_first(), x);
        vstd::seq_lib::lemma_multiset_commutative(seq![s[0]], insert_event(s.drop_first(), x));
        vstd::seq_lib::lemma_multiset_commutative(seq![s[0]], s.drop_first());
        assert(seq![s[0]] + s.drop_first() =~= s);
        assert(seq![s[0]] =~= Seq::<EventView>::empty().push(s[0]));
    }
}

/// Event order is a reordering of the events: the sorted events are the same events,
/// each as many times.
pub proof fn lemma_sorted_events_permutes(s: Seq<EventView>)
    ensures sorted_events(s).to_multiset() == s.to_multiset(),
    decreases s.len(),
{
    broadcast use vstd::seq_lib::group_to_multiset_ensures;
    if s.len() > 0 {
        lemma_sorted_events_permutes(s.drop_last());
        lemma_insert_event_multiset(sorted_events(s.drop_last()), s.last());
        assert(s.drop_last().push(s.last()) =~= s);
    }
}

/// Orders events by (logical clock, timestamp, hash, id), keeping the order of equal keys.
pub fn sort_events(events: &Vec<VectorEvent>) -> (r: Vec<VectorEvent>)
    ensures views(r@) == sorted_events(views(events@)),
{
    let ghost vals = views(events@);
    let mut out: Vec<VectorEvent> = Vec::new();
    let mut k: usize = 0;
    while k < events.len()
        invariant
            k <= events.len(), vals == views(events@),
            views(out@) == sorted_events(vals.take(k as int)),
        decreases events.len() - k,
    {
        let x = events[k].duplicate();
        assert(x@ == vals[k as int]);
        let ghost before = views(out@);
        let mut p: usize = 0;
        assert(before.skip(0) =~= before);
        while p < out.len() && compare_events(&x, &out[p]) != Order::Less
            invariant
                p <= out.len(), before == views(out@),
                insert_event(before, x@) == before.take(p as int) + insert_event(before.skip(p as int), x@),
            decreases out.len() - p,
        {
            proof {
                let t = before.skip(p as int);
                assert(t[0] == out@[p as int]@);
                assert(t.drop_first() =~= before.skip(p + 1));
                assert(before.take(p + 1) =~= before.take(p as int) + seq![t[0]]);
            }
            p += 1;
        }
        proof {
            let t = before.skip(p as int);
            if p < out.len() { assert(t[0] == out@[p as int]@); }
        }
        out.insert(p, x);
        proof {
            assert(vals.take(k + 1).drop_last() =~= vals.take(k as int));
            assert(views(out@) =~= before.take(p as int) + seq![x@] + before.skip(p as int));
        }
        k += 1;
    }
    assert(vals.take(vals.len() as int) =~= vals);
    out
}

/// The greatest of the first `n` events in event order whose entity passes the filter;
/// among equal keys, the later one.
pub open spec fn greatest_upto(es: Seq<EventView>, entity: Option<Seq<char>>, n: nat) -> Option<EventView>
    decreases n,
{
    if n == 0 {
        None
    } else {
        let prev = greatest_upto(es, entity, (n - 1) as nat);
        let e = es[n - 1];
        let eligible = match entity { Some(id) => e.entity_id == id, None => true };
        if eligible && (prev is None || event_order(prev->0, e) <= 0) { Some(e) } else { prev }
    }
}

/// The greatest event in event order, among those of an entity when one is given.
pub open spec fn greatest(es: Seq<EventView>, entity: Option<Seq<char>>) -> Option<EventView> {
    greatest_upto(es, entity, es.len())
}

fn greatest_index(events: &Vec<VectorEvent>, entity: Option<&str>) -> (r: Option<usize>)
    ensures
        match greatest(views(events@), match entity { Some(s) => Some(s@), None => None }) {
            Some(e) => r is Some && r->0 < events@.len() && events@[r->0 as int]@ == e,
            None => r is None,
        },
{
    let ghost es = views(events@);
    let ghost filter = match entity { Some(s) => Some(s@), None => None::<Seq<char>> };
    let mut best: Option<usize> = None;
    let mut i: usize = 0;
    while i < events.len()
        invariant
            i <= events.len(), es == views(events@), filter == (match entity { Some(s) => Some(s@), None => None::<Seq<char>> }),
            match greatest_upto(es, filter, i as nat) {
                Some(e) => best is Some && best->0 < i && es[best->0 as int] == e,
                None => best is None,
            },
        decreases events.len() - i,
    {
        let eligible = match entity {
            Some(id) => crate::strmap::str_eq(events[i].entity_id.as_str(), id),
            None => true,
        };
        if eligible {
            match best {
                None => { best = Some(i); }
                Some(b) => {
                    let o = compare_events(&events[b], &events[i]);
                    if o != Order::Greater {
                        best = Some(i);
                    }
                }
            }
        }
        i += 1;
    }
    best
}

// ---------------------------------------------------------------------------
// Event snapshots of vector states

/// The name `{:?}` prints for a vector type.
pub open spec fn type_debug_name(t: VectorType) -> Seq<char> {
    match t {
        VectorType::Standard => "Standard"@,
        VectorType::Origin => "Origin"@,
        VectorType::Projected => "Projected"@,
        VectorType::Escrow => "Escrow"@,
        VectorType::Settlement => "Settlement"@,
        VectorType::Locked => "Locked"@,
    }
}

fn vector_type_label(t: &VectorType) -> (r: &'static str)
    ensures r@ == type_debug_name(*t),
{
    match t {
        VectorType::Standard => "Standard",
        VectorType::Origin => "Origin",
        VectorType::Projected => "Projected",
        VectorType::Escrow => "Escrow",
        VectorType::Settlement => "Settlement",
        VectorType::Locked => "Locked",
    }
}

/// The first `n` entries inserted one by one into an empty map.
pub open spec fn reinserted(m: Seq<(Seq<char>, Seq<char>)>, n: nat) -> Seq<(Seq<char>, Seq<char>)>
    decreases n,
{
    if n == 0 { Seq::empty() } else { sorted_insert(reinserted(m, (n - 1) as nat), m[n - 1].0, m[n - 1].1) }
}

/// Every component fits an event's `u64`.
pub open spec fn components_fit(c: Seq<u128>) -> bool {
    forall|i: int| 0 <= i < c.len() ==> c[i] <= u64::MAX
}

/// The event snapshot of a vector state, when its components fit.
pub open spec fn event_state_of(v: VectorView) -> Option<VectorStateView> {
    if components_fit(v.components) {
        Some(VectorStateView {
            components: v.components.map_values(|c: u128| c as u64),
            owner_public_key: v.owner_pubkey,
            type_tag: type_debug_name(v.vector_type),
            metadata: reinserted(v.type_metadata, v.type_metadata.len()),
        })
    } else {
        None
    }
}

pub open spec fn component_limit_message() -> Seq<char> {
    "component value exceeds u64 canonical event limit"@
}

fn vector_v1_to_event_state(state: &VectorStateV1) -> (r: Result<VectorState, KernelXError>)
    ensures
        match event_state_of(state@) {
            Some(v) => r is Ok && r->Ok_0@ == v,
            None => invalid_state(r, component_limit_message()),
        },
{
    let mut components: Vec<u64> = Vec::new();
    let mut i: usize = 0;
    while i < state.components.len()
        invariant
            i <= state.components.len(),
            forall|j: int| 0 <= j < i ==> state.components@[j] <= u64::MAX,
            components@ =~= state.components@.take(i as int).map_values(|c: u128| c as u64),
        decreases state.components.len() - i,
    {
        let c = state.components[i];
        if c > 0xFFFF_FFFF_FFFF_FFFFu128 {
            return Err(KernelXError::InvalidState(String::from_str("component value exceeds u64 canonical event limit")));
        }
        components.push(c as u64);
        i += 1;
        assert(components@ =~= state.components@.take(i as int).map_values(|c: u128| c as u64));
    }
    assert(state.components@.take(state.components@.len() as int) =~= state.components@);
    let ghost md = state.type_metadata@;
    let mut metadata = StringMap::new();
    let mut k: usize = 0;
    while k < state.type_metadata.entries.len()
        invariant k <= state.type_metadata.entries.len(), md == state.type_metadata@, metadata@ == reinserted(md, k as nat),
        decreases state.type_metadata.entries.len() - k,
    {
        metadata.insert(state.type_metadata.entries[k].0.clone(), state.type_metadata.entries[k].1.clone());
        k += 1;
    }
    Ok(VectorState::new(components, state.owner_pubkey.clone(), String::from_str(vector_type_label(&state.vector_type)), metadata))
}

/// The number of first `n` events of an entity in a region.
pub open spec fn entity_event_count(es: Seq<EventView>, entity: Seq<char>, region: Seq<char>, n: nat) -> nat
    decreases n,
{
    if n == 0 {
        0
    } else {
        entity_event_count(es, entity, region, (n - 1) as nat)
            + if es[n - 1].entity_id == entity && es[n - 1].region_id == region { 1nat } else { 0nat }
    }
}

/// The parents of a new event of an entity: the hash of its greatest event, if any.
pub open spec fn latest_parents(es: Seq<EventView>, entity: Seq<char>) -> Seq<Seq<char>> {
    match greatest(es, Some(entity)) { Some(e) => seq![e.event_hash], None => Seq::empty() }
}

/// The event recording a transition of a vector, or why it cannot be built.
pub open spec fn transition_event(es: Seq<EventView>, before: Option<VectorView>, after: VectorView, op: OperationTag,
    logical_clock: u64, timestamp: u64, parents: Seq<Seq<char>>) -> Result<EventView, Seq<char>>
{
    let vb = match before {
        Some(s) => event_state_of(s),
        None => Some(VectorStateView {
            components: Seq::new(after.components.len(), |i: int| 0u64),
            owner_public_key: after.owner_pubkey,
            type_tag: type_debug_name(after.vector_type),
            metadata: Seq::empty(),
        }),
    };
    if vb is None || event_state_of(after) is None {
        Err(component_limit_message())
    } else {
        let sequence = entity_event_count(es, after.vector_id, after.space_id, es.len()) + 1;
        Ok(sealed_event(EventView {
            event_id: event_id_text(after.vector_id, after.space_id, op, logical_clock, sequence as u64),
            parent_hashes: parents,
            region_id: after.space_id,
            entity_id: after.vector_id,
            operation: op,
            vector_before: vb->0,
            vector_after: event_state_of(after)->0,
            auth_ratio_bits: ratio_bits(after.certification.auth_ratio),
            certified: after.certification.certified,
            actor_public_key: after.owner_pubkey,
            logical_clock,
            timestamp,
            payload_hash: Seq::empty(),
            event_hash: Seq::empty(),
            signature: Seq::empty(),
        }))
    }
}

/// The first parent of an event that no stored event carries.
pub open spec fn missing_parent(es: Seq<EventView>, e: EventView) -> Option<Seq<char>> {
    crate::checks::first_some(e.parent_hashes.len(), missing_parents(es, e))
}

pub open spec fn missing_parents(es: Seq<EventView>, e: EventView) -> spec_fn(int) -> Option<Seq<char>> {
    |j: int| if first_with_hash(es, e.parent_hashes[j]) is None { Some(e.parent_hashes[j]) } else { None }
}

/// What appending an event to a log decides: validation, then parent closure.
pub open spec fn append_allowed(es: Seq<EventView>, e: EventView) -> bool {
    event_check(e) is Ok && missing_parent(es, e) is None
}

/// `r` is the error appending `e` to `es` is refused with.
pub open spec fn append_refused(es: Seq<EventView>, e: EventView, r: Result<(), KernelXError>) -> bool {
    match event_check(e) {
        Err(f) => r matches Err(err) && reports(err, f),
        Ok(()) => match missing_parent(es, e) {
            Some(p) => invalid_state(r, "orphan event "@ + e.event_hash + " references missing parent "@ + p),
            None => false,
        },
    }
}

/// The kernel: a store of states, records and events, and a policy for records.
#[derive(Clone, Debug)]
pub struct KernelEngine {
    pub store: MemoryStore,
    pub consensus: ConsensusPolicy,
}

impl KernelEngine {
    pub open spec fn wf(&self) -> bool {
        self.store.wf()
    }

    /// An engine with an empty in-memory store and the default policy.
    pub fn new() -> (r: Self)
        ensures
            r.wf(),
            r.store.state_entries() == Seq::<(Seq<char>, VectorView)>::empty(),
            r.store.record_entries() == Seq::<(Seq<char>, RecordView)>::empty(),
            r.store.event_log() == Seq::<EventView>::empty(),
            r.consensus.min_auth_ratio == 700, r.consensus.require_certified,
    {
        KernelEngine { store: MemoryStore::new(), consensus: ConsensusPolicy::default() }
    }

    /// An engine over a given store, with the default policy.
    pub fn with_store(store: MemoryStore) -> (r: Self)
        ensures r.store == store, r.consensus.min_auth_ratio == 700, r.consensus.require_certified,
    {
        KernelEngine { store, consensus: ConsensusPolicy::default() }
    }

    fn latest_parent_hash_for_entity(&self, entity_id: &str) -> (r: Result<Vec<String>, KernelXError>)
        ensures r is Ok, crate::event::strings_view(r->Ok_0@) == latest_parents(self.store.event_log(), entity_id@),
    {
        let events = self.store.load_events_for_replay()?;
        match greatest_index(&events, Some(entity_id)) {
            Some(i) => {
                let mut out: Vec<String> = Vec::new();
                out.push(events[i].event_hash.clone());
                assert(crate::event::strings_view(out@) =~= seq![events@[i as int]@.event_hash]);
                Ok(out)
            }
            None => {
                let out: Vec<String> = Vec::new();
                assert(crate::event::strings_view(out@) =~= Seq::<Seq<char>>::empty());
                Ok(out)
            }
        }
    }

    fn next_event_sequence_for_entity(&self, entity_id: &str, region_id: &str) -> (r: Result<u64, KernelXError>)
        ensures
            entity_event_count(self.store.event_log(), entity_id@, region_id@, self.store.event_log().len()) < usize::MAX ==>
                r == Ok::<u64, KernelXError>((entity_event_count(self.store.event_log(), entity_id@, region_id@,
                    self.store.event_log().len()) + 1) as u64),
            entity_event_count(self.store.event_log(), entity_id@, region_id@, self.store.event_log().len()) >= usize::MAX ==>
                invalid_state(r, "event sequence overflow"@),
    {
        let events = self.store.load_events_for_replay()?;
        let ghost es = views(events@);
        let mut count: usize = 0;
        let mut i: usize = 0;
        while i < events.len()
            invariant i <= events.len(), es == views(events@), count == entity_event_count(es, entity_id@, region_id@, i as nat),
                count <= i,
            decreases events.len() - i,
        {
            if crate::strmap::str_eq(events[i].entity_id.as_str(), entity_id)
                && crate::strmap::str_eq(events[i].region_id.as_str(), region_id) {
                count += 1;
            }
            i += 1;
        }
        if count == usize::MAX {
            return Err(KernelXError::InvalidState(String::from_str("event sequence overflow")));
        }
        let next: usize = count + 1;
        Ok(next as u64)
    }

    /// The canonical event of a transition of `after` from `before`.
    fn build_transition_event(&self, before: Option<&VectorStateV1>, after: &VectorStateV1, operation: OperationType,
        logical_clock: u64, timestamp: u64, parent_hashes: Vec<String>) -> (r: Result<VectorEvent, KernelXError>)
        ensures
            entity_event_count(self.store.event_log(), after.vector_id@, after.space_id@, self.store.event_log().len()) < usize::MAX ==>
            match transition_event(self.store.event_log(), match before { Some(s) => Some(s@), None => None }, after@,
                operation@, logical_clock, timestamp, crate::event::strings_view(parent_hashes@)) {
                Ok(e) => r is Ok && r->Ok_0@ == e,
                Err(m) => invalid_state(r, m),
            },
            r is Ok ==> event_state_of(after@) is Some,
    {
        let vector_before = match before {
            Some(state) => vector_v1_to_event_state(state)?,
            None => {
                let z = VectorState::zero(after.components.len(), after.owner_pubkey.clone(), String::from_str(vector_type_label(&after.vector_type)));
                assert(z@.components =~= Seq::new(after.components@.len(), |i: int| 0u64));
                z
            }
        };
        let vector_after = vector_v1_to_event_state(after)?;
        let auth_ratio_bits = ratio_to_bits(after.certification.auth_ratio);
        let certified = after.certification.certified;
        let sequence = self.next_event_sequence_for_entity(after.vector_id.as_str(), after.space_id.as_str())?;
        let event_id = VectorEvent::canonical_event_id(after.vector_id.as_str(), after.space_id.as_str(), &operation,
            logical_clock, sequence);
        let event = VectorEvent::new(event_id, parent_hashes, after.space_id.clone(), after.vector_id.clone(), operation,
            vector_before, vector_after, auth_ratio_bits, certified, after.owner_pubkey.clone(), logical_clock, timestamp);
        Ok(seal_event(event))
    }

    fn ensure_parent_closure(&self, event: &VectorEvent) -> (r: Result<(), KernelXError>)
        ensures
            match missing_parent(self.store.event_log(), event@) {
                None => r is Ok,
                Some(p) => invalid_state(r, "orphan event "@ + event@.event_hash + " references missing parent "@ + p),
            },
    {
        let ghost es = self.store.event_log();
        let ghost f = missing_parents(es, event@);
        let mut j: usize = 0;
        while j < event.parent_hashes.len()
            invariant j <= event.parent_hashes.len(), es == self.store.event_log(), f == missing_parents(es, event@),
                crate::checks::first_some(j as nat, f) is None,
            decreases event.parent_hashes.len() - j,
        {
            proof { crate::checks::lemma_first_some_step(j as nat, event@.parent_hashes.len(), f); }
            let found = self.store.get_event_by_hash(event.parent_hashes[j].as_str())?;
            if found.is_none() {
                return Err(KernelXError::InvalidState(concat4("orphan event ", event.event_hash.as_str(),
                    " references missing parent ", event.parent_hashes[j].as_str())));
            }
            j += 1;
        }
        Ok(())
    }

    fn append_canonical_event(&mut self, event: VectorEvent) -> (r: Result<(), KernelXError>)
        requires old(self).wf(),
        ensures
            final(self).wf(), final(self).consensus == old(self).consensus,
            final(self).store.states == old(self).store.states, final(self).store.records == old(self).store.records,
            append_allowed(old(self).store.event_log(), event@) ==>
                r is Ok && final(self).store.event_log() == old(self).store.event_log().push(event@),
            !append_allowed(old(self).store.event_log(), event@) ==>
                append_refused(old(self).store.event_log(), event@, r) && final(self).store.events == old(self).store.events,
    {
        validate_event(&event)?;
        self.ensure_parent_closure(&event)?;
        self.store.append_event(event)?;
        Ok(())
    }

    // -----------------------------------------------------------------------
    // Queries

    /// Every event, ordered by (logical clock, timestamp, hash, id).
    pub fn query_events(&self) -> (r: Result<Vec<VectorEvent>, KernelXError>)
        ensures
            r is Ok,
            views(r->Ok_0@) == sorted_events(self.store.event_log()),
            views(r->Ok_0@).to_multiset() == self.store.event_log().to_multiset(),
    {
        let events = self.store.load_events_for_replay()?;
        proof { lemma_sorted_events_permutes(self.store.event_log()); }
        Ok(sort_events(&events))
    }

    /// The last event in event order.
    pub fn latest_event(&self) -> (r: Result<Option<VectorEvent>, KernelXError>)
        ensures
            r is Ok,
            match r->Ok_0 {
                Some(e) => sorted_events(self.store.event_log()).len() > 0 && e@ == sorted_events(self.store.event_log()).last(),
                None => sorted_events(self.store.event_log()).len() == 0,
            },
    {
        let mut events = self.query_events()?;
        Ok(events.pop())
    }

    /// The logical clock a new event gets: one past that of the last event, or zero.
    fn next_logical_clock(&self) -> (r: Result<u64, KernelXError>)
        ensures
            r is Ok,
            r->Ok_0 == (if sorted_events(self.store.event_log()).len() == 0 { 0u64 } else {
                let c = sorted_events(self.store.event_log()).last().logical_clock;
                if c < u64::MAX { (c + 1) as u64 } else { u64::MAX }
            }),
    {
        let events = self.query_events()?;
        if events.len() == 0 {
            Ok(0)
        } else {
            let c = events[events.len() - 1].logical_clock;
            Ok(c.saturating_add(1))
        }
    }

    /// The stored state of a vector.
    pub fn query_vector(&self, vector_id: &str) -> (r: Result<Option<VectorStateV1>, KernelXError>)
        ensures r is Ok, crate::storage::opt_view(r->Ok_0) == lookup(self.store.state_entries(), vector_id@),
    {
        self.store.get_state(vector_id)
    }

    /// Every stored state, by vector id.
    pub fn query_vectors(&self) -> (r: Result<Vec<VectorStateV1>, KernelXError>)
        ensures r is Ok,
            crate::storage::state_views(r->Ok_0@) == self.store.state_entries().map_values(|e: (Seq<char>, VectorView)| e.1),
    {
        self.store.list_states()
    }

    /// Every stored record, by record id.
    pub fn query_records(&self) -> (r: Result<Vec<VectorRecordV1>, KernelXError>)
        ensures r is Ok,
            crate::storage::record_views(r->Ok_0@) == self.store.record_entries().map_values(|e: (Seq<char>, RecordView)| e.1),
    {
        self.store.list_records()
    }

    /// The first stored event with a hash.
    pub fn query_event_by_hash(&self, event_hash: &str) -> (r: Result<Option<VectorEvent>, KernelXError>)
        ensures r is Ok, crate::storage::opt_view(r->Ok_0) == first_with_hash(self.store.event_log(), event_hash@),
    {
        self.store.get_event_by_hash(event_hash)
    }
}

/// The first listed region with an id.
pub open spec fn region_with_id(list: Seq<RegionView>, id: Seq<char>) -> Option<RegionView>
    decreases list.len(),
{
    if list.len() == 0 { None } else if list[0].region_id == id { Some(list[0]) } else { region_with_id(list.drop_first(), id) }
}

/// The largest update time among the first `n` states.
pub open spec fn max_updated(states: Seq<VectorView>, n: nat) -> u64
    decreases n,
{
    if n == 0 {
        0
    } else {
        let prev = max_updated(states, (n - 1) as nat);
        if states[n - 1].updated_at_ms > prev { states[n - 1].updated_at_ms } else { prev }
    }
}

/// The logical clock of the next event: one past the last event's, saturating, or zero.
pub open spec fn next_clock(log: Seq<EventView>) -> u64 {
    if sorted_events(log).len() == 0 {
        0
    } else {
        let c = sorted_events(log).last().logical_clock;
        if c < u64::MAX { (c + 1) as u64 } else { u64::MAX }
    }
}

pub open spec fn opt_text(o: Option<&str>) -> Option<Seq<char>> {
    match o { Some(s) => Some(s@), None => None }
}

impl KernelEngine {
    /// The regions created by the stored events, in listing order.
    pub fn query_regions(&self) -> (r: Result<Vec<RegionState>, KernelXError>)
        ensures
            match region_listing(sorted_events(self.store.event_log())) {
                Ok(list) => r is Ok && crate::region::region_views(r->Ok_0@) == list,
                Err(m) => invalid_state(r, m),
            },
    {
        let events = self.query_events()?;
        list_regions_from_events(events.as_slice())
    }

    /// The region with an id.
    pub fn query_region(&self, region_id: &str) -> (r: Result<Option<RegionState>, KernelXError>)
        ensures
            match region_listing(sorted_events(self.store.event_log())) {
                Ok(list) => r is Ok && crate::storage::opt_view(r->Ok_0) == region_with_id(list, region_id@),
                Err(m) => invalid_state(r, m),
            },
    {
        let regions = self.query_regions()?;
        let ghost list = crate::region::region_views(regions@);
        let mut i: usize = 0;
        assert(list.skip(0) =~= list);
        while i < regions.len()
            invariant
                i <= regions.len(), list == crate::region::region_views(regions@),
                region_listing(sorted_events(self.store.event_log())) == Ok::<Seq<RegionView>, Seq<char>>(list),
                region_with_id(list, region_id@) == region_with_id(list.skip(i as int), region_id@),
            decreases regions.len() - i,
        {
            assert(list.skip(i as int)[0] == regions@[i as int]@);
            assert(list.skip(i as int).drop_first() =~= list.skip(i + 1));
            if crate::strmap::str_eq(regions[i].region_id.as_str(), region_id) {
                return Ok(Some(regions[i].duplicate()));
            }
            i += 1;
        }
        Ok(None)
    }

    /// The region with a name and prefix, both normalized.
    pub fn query_region_by_name(&self, region_name: &str, region_prefix: Option<&str>) -> (r: Result<Option<RegionState>, KernelXError>)
        ensures
            match region_listing(sorted_events(self.store.event_log())) {
                Err(m) => invalid_state(r, m),
                Ok(list) => r is Ok && crate::storage::opt_view(r->Ok_0) == first_match(list, region_name@, opt_text(region_prefix)),
            },
    {
        let events = self.query_events()?;
        find_region_by_lookup_key(events.as_slice(), region_name, region_prefix)
    }

    /// The id of the region with a name and prefix.
    pub fn resolve_region_id(&self, region_name: &str, region_prefix: Option<&str>) -> (r: Result<Option<String>, KernelXError>)
        ensures
            match region_listing(sorted_events(self.store.event_log())) {
                Err(m) => invalid_state(r, m),
                Ok(list) => r is Ok && match first_match(list, region_name@, opt_text(region_prefix)) {
                    Some(v) => r->Ok_0 is Some && r->Ok_0->0@ == v.region_id,
                    None => r->Ok_0 is None,
                },
            },
    {
        match self.query_region_by_name(region_name, region_prefix)? {
            Some(region) => Ok(Some(region.region_id)),
            None => Ok(None),
        }
    }

    /// Whether a region with a name and prefix exists.
    pub fn region_exists(&self, region_name: &str, region_prefix: Option<&str>) -> (r: Result<bool, KernelXError>)
        ensures
            match region_listing(sorted_events(self.store.event_log())) {
                Err(m) => invalid_state(r, m),
                Ok(list) => r == Ok::<bool, KernelXError>(first_match(list, region_name@, opt_text(region_prefix)) is Some),
            },
    {
        Ok(self.query_region_by_name(region_name, region_prefix)?.is_some())
    }

    /// Whether an access key opens the region with an id.
    pub fn authorize_region(&self, region_id: &str, access_key: Option<&str>) -> (r: Result<bool, KernelXError>)
        ensures
            match region_listing(sorted_events(self.store.event_log())) {
                Err(m) => invalid_state(r, m),
                Ok(list) => match region_with_id(list, region_id@) {
                    Some(v) => r == Ok::<bool, KernelXError>(access_allowed(v, opt_text(access_key))),
                    None => invalid_state(r, "region not found"@),
                },
            },
    {
        match self.query_region(region_id)? {
            Some(region) => Ok(authorize_region_access(&region, access_key)),
            None => Err(KernelXError::InvalidState(String::from_str("region not found"))),
        }
    }

    /// Creates a region from a signed request: checks the request, its signature, that
    /// no region has its lookup key and that the actor is named, then appends its
    /// genesis event and returns the region.
    pub fn create_region(&mut self, request: RegionCreateRequest, actor_public_key: String) -> (r: Result<RegionState, KernelXError>)
        requires old(self).wf(), request.metadata.wf(),
        ensures
            final(self).wf(),
            final(self).store.states == old(self).store.states, final(self).store.records == old(self).store.records,
            r is Err ==> final(self).store.events == old(self).store.events,
            match request_problem(request@) {
                Some(m) => invalid_state(r, m) && final(self).store.events == old(self).store.events,
                None => match request_signature_check(actor_public_key@, request@) {
                    Err(m) => invalid_state(r, m) && final(self).store.events == old(self).store.events,
                    Ok(false) => invalid_state(r, "region request signature verification failed"@)
                        && final(self).store.events == old(self).store.events,
                    Ok(true) => match region_listing(sorted_events(old(self).store.event_log())) {
                        Err(m) => invalid_state(r, m) && final(self).store.events == old(self).store.events,
                        Ok(list) => if first_match(list, request@.region_name, request@.region_prefix) is Some {
                            invalid_state(r, "region already exists for this lookup key"@) && final(self).store.events == old(self).store.events
                        } else if trimmed(actor_public_key@).len() == 0 {
                            invalid_state(r, "actor_public_key cannot be empty"@) && final(self).store.events == old(self).store.events
                        } else {
                            r is Ok && {
                                let e = genesis_event(request@, actor_public_key@, next_clock(old(self).store.event_log()),
                                    r->Ok_0.created_at_ms, 1);
                                &&& final(self).store.event_log() == old(self).store.event_log().push(e)
                                &&& region_from_event(e) == Ok::<RegionView, Seq<char>>(r->Ok_0@)
                            }
                        },
                    },
                },
            },
    {
        validate_region_create_request(&request)?;
        verify_region_create_request_signature(actor_public_key.as_str(), &request)?;
        let prefix: Option<&str> = match &request.region_prefix {
            Some(p) => Some(p.as_str()),
            None => None,
        };
        if self.query_region_by_name(request.region_name.as_str(), prefix)?.is_some() {
            return Err(KernelXError::InvalidState(String::from_str("region already exists for this lookup key")));
        }
        if is_blank(actor_public_key.as_str()) {
            return Err(KernelXError::InvalidState(String::from_str("actor_public_key cannot be empty")));
        }
        let logical_clock = self.next_logical_clock()?;
        let timestamp = now_ms();
        let sequence: u64 = 1;
        let event = build_region_genesis_event(&request, actor_public_key.as_str(), logical_clock, timestamp, sequence)?;
        proof {
            crate::genesis::lemma_genesis_accepted(self.store.event_log(), request@, actor_public_key@, logical_clock, timestamp);
            crate::genesis::lemma_genesis_region(request@, actor_public_key@, logical_clock, timestamp, 1);
        }
        if !is_region_create_event(&event) {
            return Err(KernelXError::InvalidState(String::from_str("failed to build canonical region create event")));
        }
        validate_event(&event)?;
        self.append_canonical_event(event.duplicate())?;
        let region = region_state_from_event(&event)?;
        assert(region.created_at_ms == timestamp);
        Ok(region)
    }

    /// Replays every stored event.
    pub fn replay_canonical_history(&self) -> (r: Result<ReplayResult, KernelXError>)
        ensures
            match replay_spec(self.store.event_log()) {
                Ok((st, applied, clock)) => r is Ok && replay_result_is(r->Ok_0, st, applied, clock),
                Err(m) => invalid_state(r, m),
            },
    {
        let events = self.store.load_events_for_replay()?;
        match replay_events(events.as_slice()) {
            Ok(result) => Ok(result),
            Err(m) => Err(KernelXError::InvalidState(m)),
        }
    }

    /// The state root of the stored states, at the largest update time among them.
    pub fn current_state_root(&self) -> (r: Result<StateRoot, KernelXError>)
        ensures
            r is Ok,
            ({
                let states = self.store.state_entries().map_values(|e: (Seq<char>, VectorView)| e.1);
                r->Ok_0@ == state_set_root(states, max_updated(states, states.len()))
            }),
            r->Ok_0.event_count == self.store.state_entries().len(),
            r->Ok_0.root_hash@.len() == 64,
    {
        let states = self.store.list_states()?;
        let ghost sv = vector_views(states@);
        let mut clock: u64 = 0;
        let mut i: usize = 0;
        while i < states.len()
            invariant i <= states.len(), sv == vector_views(states@), clock == max_updated(sv, i as nat),
            decreases states.len() - i,
        {
            if states[i].updated_at_ms > clock {
                clock = states[i].updated_at_ms;
            }
            i += 1;
        }
        assert(crate::storage::state_views(states@) == sv);
        Ok(compute_state_root(states.as_slice(), clock))
    }
}

/// What appending the event of a transition leaves in the log, and how the append ends.
#[verifier::opaque]
pub open spec fn committed(old_log: Seq<EventView>, new_log: Seq<EventView>, before: Option<VectorView>, after: VectorView,
    op: OperationTag, logical_clock: u64, timestamp: u64, r: Result<(), KernelXError>) -> bool
{
    entity_event_count(old_log, after.vector_id, after.space_id, old_log.len()) < usize::MAX ==>
    match transition_event(old_log, before, after, op, logical_clock, timestamp, latest_parents(old_log, after.vector_id)) {
        Err(m) => invalid_state(r, m) && new_log == old_log,
        Ok(e) => if append_allowed(old_log, e) {
            r is Ok && new_log == old_log.push(e)
        } else {
            append_refused(old_log, e, r) && new_log == old_log
        },
    }
}

/// The records after a mutation's record was offered: stored when the policy accepts it.
#[verifier::opaque]
pub open spec fn record_offered(old: Seq<(Seq<char>, RecordView)>, new: Seq<(Seq<char>, RecordView)>, policy: ConsensusPolicy,
    rec: RecordView) -> bool
{
    if accepts(policy, rec.certification.certified, rec.certification.auth_ratio) {
        new == sorted_insert(old, rec.record_id, rec)
    } else {
        new == old
    }
}

/// A record of a mutation of `after` from `before`, certified as `after` is.
pub open spec fn record_of(rec: RecordView, id: Seq<char>, before: Option<VectorView>, after: VectorView, op: OperationKindView,
    params: Seq<(Seq<char>, ParamView)>) -> bool
{
    &&& rec.record_id == id
    &&& rec.vector_id == after.vector_id
    &&& rec.before == before
    &&& rec.after == after
    &&& rec.operation == op
    &&& rec.parameters == params
    &&& rec.certification == after.certification
}

/// The state a certification leaves: certified as its components score, one version on.
pub open spec fn certified_state(s: VectorView, checked_at: u64, updated_at: u64) -> VectorView {
    VectorView {
        certification: certification_of(s.components, s.certification.threshold, true, true, checked_at),
        updated_at_ms: updated_at,
        version: (s.version + 1) as u64,
        ..s
    }
}

/// The discriminator of a certification record id.
pub open spec fn certify_discriminator(u: VectorView) -> Seq<char> {
    "version="@ + decimal(u.version as nat) + ";auth="@ + decimal(u.certification.auth_ratio as nat)
}

fn certify_record(vector_id: &str, state: &VectorStateV1, updated: &VectorStateV1) -> (r: VectorRecordV1)
    requires state.type_metadata.wf(), updated.type_metadata.wf(), updated.vector_id@ == vector_id@,
    ensures
        record_wf(&r),
        record_of(r@, hash_hex(record_id_material("certify"@, vector_id@, certify_discriminator(updated@))),
            Some(state@), updated@, OperationKindView::Certify, Seq::empty()),
{
    let mut d: Vec<char> = Vec::new();
    crate::text::push_str(&mut d, "version=");
    crate::text::push_decimal(&mut d, updated.version as u128);
    crate::text::push_str(&mut d, ";auth=");
    crate::text::push_decimal(&mut d, updated.certification.auth_ratio as u128);
    assert(d@ =~= certify_discriminator(updated@));
    let discriminator = crate::text::string_from_chars(d.as_slice());
    let params = RecordParams::new();
    VectorRecordV1::new(make_record_id("certify", vector_id, discriminator.as_str()), String::from_str(vector_id),
        Some(state.duplicate()), updated.duplicate(), OperationKind::Certify, params)
}

impl KernelEngine {
    /// Offers a mutation's record to the policy, then appends the mutation's event.
    fn commit(&mut self, before: Option<&VectorStateV1>, after: &VectorStateV1, record: VectorRecordV1,
        operation: OperationType, logical_clock: u64, timestamp: u64) -> (r: Result<(), KernelXError>)
        requires old(self).wf(), record_wf(&record),
        ensures
            final(self).wf(), final(self).consensus == old(self).consensus,
            final(self).store.states == old(self).store.states,
            record_offered(old(self).store.record_entries(), final(self).store.record_entries(), old(self).consensus, record@),
            committed(old(self).store.event_log(), final(self).store.event_log(), match before { Some(b) => Some(b@), None => None },
                after@, operation@, logical_clock, timestamp, r),
            r is Ok ==> components_fit(after@.components),
            r is Ok ==> final(self).store.event_log().len() == old(self).store.event_log().len() + 1,
    {
        proof { reveal(committed); reveal(record_offered); }
        if accept_record(&record, &self.consensus) {
            self.store.put_record(record)?;
        }
        let parents = self.latest_parent_hash_for_entity(after.vector_id.as_str())?;
        let event = self.build_transition_event(before, after, operation, logical_clock, timestamp, parents)?;
        self.append_canonical_event(event)
    }

    /// Re-certifies a stored vector and records the change.
    #[verifier::rlimit(100)]
    pub fn certify(&mut self, vector_id: &str) -> (r: Result<VectorStateV1, KernelXError>)
        requires
            old(self).wf(),
            lookup(old(self).store.state_entries(), vector_id@) matches Some(s) ==>
                s.version < u64::MAX && sum_u128(s.components) <= u128::MAX,
        ensures
            final(self).wf(), final(self).consensus == old(self).consensus,
            r is Ok ==> final(self).store.event_log().len() == old(self).store.event_log().len() + 1,
            match lookup(old(self).store.state_entries(), vector_id@) {
                None => r matches Err(KernelXError::VectorNotFound) && final(self).store == old(self).store,
                Some(s) => {
                    &&& event_ready(s) && log_has_room(old(self).store.event_log()) ==> r is Ok
                    &&& state_valid(s) && log_has_room(old(self).store.event_log()) && !components_fit(s.components)
                        ==> invalid_state(r, component_limit_message())
                    &&& r is Ok ==> {
                    let u = r->Ok_0@;
                    &&& u == certified_state(s, u.certification.last_checked_at_ms, u.updated_at_ms)
                    &&& final(self).store.state_entries() == sorted_insert(old(self).store.state_entries(), vector_id@, u)
                    &&& exists|rec: RecordView| record_of(rec, hash_hex(record_id_material("certify"@, vector_id@,
                            certify_discriminator(u))), Some(s), u, OperationKindView::Certify, Seq::empty())
                        && record_offered(old(self).store.record_entries(), final(self).store.record_entries(), old(self).consensus, rec)
                    &&& committed(old(self).store.event_log(), final(self).store.event_log(), Some(s), u,
                            OperationTag::Certify, u.version, u.updated_at_ms, Ok(()))
                    }
                },
            },
    {
        let state = match self.store.get_state(vector_id)? {
            Some(s) => s,
            None => { return Err(KernelXError::VectorNotFound); }
        };
        let mut updated = state.duplicate();
        updated.certification = certify_state(&state, true, true);
        updated.updated_at_ms = now_ms();
        updated.version = updated.version + 1;
        proof { if state_valid(state@) { lemma_state_valid_no_problem(updated@); } }
        validate_state(&updated)?;
        self.store.put_state(updated.duplicate())?;
        let record = certify_record(vector_id, &state, &updated);
        let ghost rec = record@;
        let clock = updated.version;
        let ts = updated.updated_at_ms;
        let ghost log0 = self.store.event_log();
        let c = self.commit(Some(&state), &updated, record, OperationType::Certify, clock, ts);
        proof {
            if log_has_room(old(self).store.event_log()) {
                if event_ready(state@) {
                    lemma_commit_ok(log0, self.store.event_log(), Some(state@), updated@, OperationTag::Certify, clock, ts, c);
                }
                if state_valid(state@) && !components_fit(state@.components) {
                    lemma_commit_limit(log0, self.store.event_log(), Some(state@), updated@, OperationTag::Certify, clock, ts, c);
                }
            }
        }
        c?;
        proof {
            assert(record_offered(old(self).store.record_entries(), self.store.record_entries(), old(self).consensus, rec));
        }
        Ok(updated)
    }
}

/// The state an origin creation stores: the new origin vector, certified.
pub open spec fn origin_state(vector_id: Seq<char>, owner: Seq<char>, space: Seq<char>, components: Seq<u128>, seed: Seq<char>,
    nonce: u64, difficulty: u32, created_at: u64, checked_at: u64) -> VectorView
{
    let base = new_vector_view(vector_id, owner, space, components, VectorType::Origin, created_at);
    VectorView {
        origin: Some(OriginView { seed, nonce, difficulty, proof_hash: origin_proof(seed, nonce) }),
        certification: certification_of(components, base.certification.threshold, true, true, checked_at),
        ..base
    }
}

/// The discriminator of an origin record id.
pub open spec fn origin_discriminator(difficulty: u32, version: u64) -> Seq<char> {
    "difficulty="@ + decimal(difficulty as nat) + ";version="@ + decimal(version as nat)
}

pub open spec fn origin_params(difficulty: u32) -> Seq<(Seq<char>, ParamView)> {
    sorted_insert(Seq::empty(), "difficulty"@, ParamView::Number(difficulty as u64))
}

fn origin_record(state: &VectorStateV1, difficulty: u32) -> (r: VectorRecordV1)
    requires state.type_metadata.wf(),
    ensures
        record_wf(&r),
        record_of(r@, hash_hex(record_id_material("origin"@, state.vector_id@, origin_discriminator(difficulty, state.version))),
            None, state@, OperationKindView::OriginCreate, origin_params(difficulty)),
{
    let mut d: Vec<char> = Vec::new();
    crate::text::push_str(&mut d, "difficulty=");
    crate::text::push_decimal(&mut d, difficulty as u128);
    crate::text::push_str(&mut d, ";version=");
    crate::text::push_decimal(&mut d, state.version as u128);
    assert(d@ =~= origin_discriminator(difficulty, state.version));
    let discriminator = crate::text::string_from_chars(d.as_slice());
    let mut params = RecordParams::new();
    params.insert(String::from_str("difficulty"), ParamValue::Number(difficulty as u64));
    VectorRecordV1::new(make_record_id("origin", state.vector_id.as_str(), discriminator.as_str()), state.vector_id.clone(),
        None, state.duplicate(), OperationKind::OriginCreate, params)
}

/// The components a drain leaves.
pub open spec fn drained(c: Seq<u128>, basis_points: u16, auth_ratio: u16, threshold: u16) -> Seq<u128> {
    Seq::new(c.len(), |i: int| (c[i] - drain_fee(c[i], effective_drain_bps(basis_points, auth_ratio, threshold))) as u128)
}

/// A drain at an accepted rate (at most 10000 basis points) never raises a component, so
/// it never raises the magnitude.
pub proof fn lemma_drain_never_increases(c: Seq<u128>, basis_points: u16, auth_ratio: u16, threshold: u16)
    requires basis_points <= 10000,
    ensures
        forall|i: int| 0 <= i < c.len() ==> #[trigger] drained(c, basis_points, auth_ratio, threshold)[i] <= c[i],
        sum_u128(drained(c, basis_points, auth_ratio, threshold)) <= sum_u128(c),
{
    let rate = effective_drain_bps(basis_points, auth_ratio, threshold);
    assert(rate <= basis_points);
    assert forall|i: int| 0 <= i < c.len() implies #[trigger] drained(c, basis_points, auth_ratio, threshold)[i] <= c[i] by {
        crate::drain::lemma_drain_fee_bounded(c[i], rate);
    }
    lemma_sum_le(drained(c, basis_points, auth_ratio, threshold), c);
}

/// The state a drain stores.
pub open spec fn drained_state(s: VectorView, basis_points: u16, checked_at: u64, updated_at: u64) -> VectorView {
    let remaining = drained(s.components, basis_points, s.certification.auth_ratio, s.certification.threshold);
    VectorView {
        components: remaining,
        certification: certification_of(remaining, s.certification.threshold, true, true, checked_at),
        updated_at_ms: updated_at,
        version: (s.version + 1) as u64,
        ..s
    }
}

pub open spec fn as_numbers(v: Seq<u128>) -> Seq<u64> {
    v.map_values(|a: u128| a as u64)
}

pub open spec fn drain_params(basis_points: u16, remaining: Seq<u128>) -> Seq<(Seq<char>, ParamView)> {
    let p0 = sorted_insert(Seq::empty(), "basis_points"@, ParamView::Number(basis_points as u64));
    sorted_insert(p0, "remaining"@, ParamView::Numbers(as_numbers(remaining)))
}

fn numbers_of(v: &Vec<u128>) -> (r: Vec<u64>)
    requires components_fit(v@),
    ensures r@ == as_numbers(v@),
{
    let mut out: Vec<u64> = Vec::new();
    let mut i: usize = 0;
    while i < v.len()
        invariant i <= v.len(), components_fit(v@), out@ =~= as_numbers(v@).take(i as int),
        decreases v.len() - i,
    {
        out.push(v[i] as u64);
        i += 1;
        assert(out@ =~= as_numbers(v@).take(i as int));
    }
    out
}

#[verifier::rlimit(50)]
fn params_record(prefix: &str, vector_id: &str, before: &VectorStateV1, after: &VectorStateV1, kind: OperationKind,
    params: RecordParams) -> (r: VectorRecordV1)
    requires before.type_metadata.wf(), after.type_metadata.wf(), params.wf(), after.vector_id@ == vector_id@,
    ensures
        record_wf(&r),
        record_of(r@, hash_hex(record_id_material(prefix@, vector_id@, params_text(params@))), Some(before@), after@, kind@, params@),
        r@.vector_id == vector_id@,
{
    let text = crate::record::params_to_json(&params);
    let id = make_record_id(prefix, vector_id, text.as_str());
    let ghost pv = params@;
    let ghost kv = kind@;
    let b = before.duplicate();
    let a = after.duplicate();
    let r = VectorRecordV1::new(id, String::from_str(vector_id), Some(b), a, kind, params);
    assert(r@.parameters == pv);
    assert(r@.operation == kv);
    r
}

pub open spec fn project_params(projected: Seq<u128>) -> Seq<(Seq<char>, ParamView)> {
    sorted_insert(Seq::empty(), "projected_components"@, ParamView::Numbers(as_numbers(projected)))
}

impl KernelEngine {
    /// Creates an origin vector once its proof of work checks out, certifies it and
    /// records its creation.
    pub fn origin_create(&mut self, vector_id: String, owner_pubkey: String, space_id: String, components: Vec<u128>,
        seed: String, nonce: u64, difficulty: u32) -> (r: Result<VectorStateV1, KernelXError>)
        requires old(self).wf(), sum_u128(components@) <= u128::MAX,
        ensures
            final(self).wf(), final(self).consensus == old(self).consensus,
            r is Ok ==> final(self).store.event_log().len() == old(self).store.event_log().len() + 1,
            !origin_valid(seed@, nonce, difficulty) ==> (r matches Err(KernelXError::OriginRejected) && final(self).store == old(self).store),
            origin_valid(seed@, nonce, difficulty) && origin_inputs_valid(vector_id@, owner_pubkey@, space_id@, components@)
                && log_has_room(old(self).store.event_log()) ==> {
                &&& components_fit(components@) ==> r is Ok
                &&& !components_fit(components@) ==> invalid_state(r, component_limit_message())
            },
            r is Ok ==> {
                let u = r->Ok_0@;
                &&& u == origin_state(vector_id@, owner_pubkey@, space_id@, components@, seed@, nonce, difficulty,
                        u.created_at_ms, u.certification.last_checked_at_ms)
                &&& final(self).store.state_entries() == sorted_insert(old(self).store.state_entries(), vector_id@, u)
                &&& exists|rec: RecordView| record_of(rec, hash_hex(record_id_material("origin"@, vector_id@,
                        origin_discriminator(difficulty, u.version))), None, u, OperationKindView::OriginCreate, origin_params(difficulty))
                    && record_offered(old(self).store.record_entries(), final(self).store.record_entries(), old(self).consensus, rec)
                &&& committed(old(self).store.event_log(), final(self).store.event_log(), None, u,
                        OperationTag::OriginCreate, u.version, u.created_at_ms, Ok(()))
            },
    {
        let mut state = create_origin_vector(vector_id, owner_pubkey, space_id, components, seed, nonce, difficulty)?;
        proof { if origin_inputs_valid(vector_id@, owner_pubkey@, space_id@, components@) { lemma_state_valid_no_problem(state@); } }
        validate_state(&state)?;
        state.certification = certify_state(&state, true, true);
        proof { if origin_inputs_valid(vector_id@, owner_pubkey@, space_id@, components@) { lemma_state_valid_no_problem(state@); } }
        validate_state(&state)?;
        self.store.put_state(state.duplicate())?;
        let record = origin_record(&state, difficulty);
        let ghost rec = record@;
        let clock = state.version;
        let ts = state.created_at_ms;
        let ghost log0 = self.store.event_log();
        let c = self.commit(None, &state, record, OperationType::OriginCreate, clock, ts);
        proof {
            if log_has_room(old(self).store.event_log()) && origin_inputs_valid(vector_id@, owner_pubkey@, space_id@, components@) {
                if components_fit(components@) {
                    lemma_commit_ok(log0, self.store.event_log(), None, state@, OperationTag::OriginCreate, clock, ts, c);
                } else {
                    lemma_commit_limit(log0, self.store.event_log(), None, state@, OperationTag::OriginCreate, clock, ts, c);
                }
            }
        }
        c?;
        proof {
            assert(record_offered(old(self).store.record_entries(), self.store.record_entries(), old(self).consensus, rec));
        }
        Ok(state)
    }

    /// Drains a basis-point fee from a stored vector, re-certifies it and records the change.
    pub fn drain(&mut self, vector_id: &str, basis_points: u16) -> (r: Result<VectorStateV1, KernelXError>)
        requires
            old(self).wf(),
            lookup(old(self).store.state_entries(), vector_id@) matches Some(s) ==> {
                &&& s.version < u64::MAX
                &&& sum_u128(s.components) <= u128::MAX
                &&& basis_points <= 10000 ==>
                    components_fit(drained(s.components, basis_points, s.certification.auth_ratio, s.certification.threshold))
            },
        ensures
            final(self).wf(), final(self).consensus == old(self).consensus,
            r is Ok ==> final(self).store.event_log().len() == old(self).store.event_log().len() + 1,
            match lookup(old(self).store.state_entries(), vector_id@) {
                None => r matches Err(KernelXError::VectorNotFound) && final(self).store == old(self).store,
                Some(s) => if basis_points > 10000 {
                    r matches Err(KernelXError::Rejected(m)) && m@ == "drain basis points must be <= 10000"@
                        && final(self).store == old(self).store
                } else {
                    &&& event_ready(s) && log_has_room(old(self).store.event_log()) ==> r is Ok
                    &&& state_valid(s) && log_has_room(old(self).store.event_log()) && !components_fit(s.components)
                        ==> invalid_state(r, component_limit_message())
                    &&& r is Ok ==> {
                        let u = r->Ok_0@;
                        &&& u == drained_state(s, basis_points, u.certification.last_checked_at_ms, u.updated_at_ms)
                        &&& final(self).store.state_entries() == sorted_insert(old(self).store.state_entries(), vector_id@, u)
                        &&& exists|rec: RecordView| record_of(rec, hash_hex(record_id_material("drain"@, vector_id@,
                                params_text(drain_params(basis_points, u.components)))), Some(s), u, OperationKindView::Drain,
                                drain_params(basis_points, u.components))
                            && record_offered(old(self).store.record_entries(), final(self).store.record_entries(), old(self).consensus, rec)
                        &&& committed(old(self).store.event_log(), final(self).store.event_log(), Some(s), u,
                                OperationTag::Drain, u.version, u.updated_at_ms, Ok(()))
                    }
                },
            },
    {
        let mut state = match self.store.get_state(vector_id)? {
            Some(s) => s,
            None => { return Err(KernelXError::VectorNotFound); }
        };
        let before = state.duplicate();
        let (fees, remaining) = apply_drain(before.components.as_slice(), basis_points, before.certification.auth_ratio,
            before.certification.threshold)?;
        proof {
            assert forall|i: int| 0 <= i < remaining@.len() implies remaining@[i]
                == drained(before.components@, basis_points, before.certification.auth_ratio, before.certification.threshold)[i]
                && remaining@[i] <= before.components@[i] by {
                assert(fees@[i] == drain_fee(before.components@[i],
                    effective_drain_bps(basis_points, before.certification.auth_ratio, before.certification.threshold)));
            }
            assert(remaining@ =~= drained(before.components@, basis_points, before.certification.auth_ratio, before.certification.threshold));
            lemma_sum_le(remaining@, before.components@);
        }
        state.components = remaining;
        state.certification = certify_state(&state, true, true);
        state.updated_at_ms = now_ms();
        state.version = state.version + 1;
        proof { if state_valid(before@) { lemma_state_valid_no_problem(state@); } }
        validate_state(&state)?;
        self.store.put_state(state.duplicate())?;
        let mut params = RecordParams::new();
        params.insert(String::from_str("basis_points"), ParamValue::Number(basis_points as u64));
        params.insert(String::from_str("remaining"), ParamValue::Numbers(numbers_of(&state.components)));
        let record = params_record("drain", vector_id, &before, &state, OperationKind::Drain, params);
        let ghost rec = record@;
        let clock = state.version;
        let ts = state.updated_at_ms;
        let ghost log0 = self.store.event_log();
        let c = self.commit(Some(&before), &state, record, OperationType::Drain, clock, ts);
        proof {
            if log_has_room(old(self).store.event_log()) {
                if event_ready(before@) {
                    lemma_commit_ok(log0, self.store.event_log(), Some(before@), state@, OperationTag::Drain, clock, ts, c);
                }
                if state_valid(before@) && !components_fit(before@.components) {
                    lemma_commit_limit(log0, self.store.event_log(), Some(before@), state@, OperationTag::Drain, clock, ts, c);
                }
            }
        }
        c?;
        proof {
            assert(record_offered(old(self).store.record_entries(), self.store.record_entries(), old(self).consensus, rec));
        }
        Ok(state)
    }

    /// Moves a slice of a stored vector into escrow, re-certifies it and records the change.
    pub fn project(&mut self, vector_id: &str, projected_components: Vec<u128>, escrow_id: String) -> (r: Result<VectorStateV1, KernelXError>)
        requires
            old(self).wf(),
            components_fit(projected_components@),
            lookup(old(self).store.state_entries(), vector_id@) matches Some(s) ==>
                s.version < u64::MAX && sum_u128(s.components) <= u128::MAX,
        ensures
            final(self).wf(), final(self).consensus == old(self).consensus,
            r is Ok ==> final(self).store.event_log().len() == old(self).store.event_log().len() + 1,
            match lookup(old(self).store.state_entries(), vector_id@) {
                None => r matches Err(KernelXError::VectorNotFound) && final(self).store == old(self).store,
                Some(s) => if projected_components@.len() != s.components.len() {
                    r matches Err(KernelXError::DimensionMismatch) && final(self).store == old(self).store
                } else if exceeds_balance(projected_components@, s.components) {
                    r matches Err(KernelXError::InsufficientBalance) && final(self).store == old(self).store
                } else {
                    &&& event_ready(s) && log_has_room(old(self).store.event_log()) ==> r is Ok
                    &&& state_valid(s) && log_has_room(old(self).store.event_log()) && !components_fit(s.components)
                        ==> invalid_state(r, component_limit_message())
                    &&& r is Ok ==> {
                        let u = r->Ok_0@;
                        &&& u == VectorView {
                                certification: certification_of(u.components, s.certification.threshold, true, true,
                                    u.certification.last_checked_at_ms),
                                ..projected_view(s, projected_components@, escrow_id@, u.updated_at_ms)
                            }
                        &&& final(self).store.state_entries() == sorted_insert(old(self).store.state_entries(), vector_id@, u)
                        &&& exists|rec: RecordView| record_of(rec, hash_hex(record_id_material("project"@, vector_id@,
                                params_text(project_params(projected_components@)))), Some(s), u, OperationKindView::Project,
                                project_params(projected_components@))
                            && record_offered(old(self).store.record_entries(), final(self).store.record_entries(), old(self).consensus, rec)
                        &&& committed(old(self).store.event_log(), final(self).store.event_log(), Some(s), u,
                                OperationTag::Project, u.version, u.updated_at_ms, Ok(()))
                    }
                },
            },
    {
        let state = match self.store.get_state(vector_id)? {
            Some(s) => s,
            None => { return Err(KernelXError::VectorNotFound); }
        };
        let before = state.duplicate();
        let mut params = RecordParams::new();
        params.insert(String::from_str("projected_components"), ParamValue::Numbers(numbers_of(&projected_components)));
        let mut after = project_vector(state, projected_components, escrow_id)?;
        proof {
            lemma_sum_le(after.components@, before.components@);
        }
        after.certification = certify_state(&after, true, true);
        proof { if state_valid(before@) { lemma_state_valid_no_problem(after@); } }
        validate_state(&after)?;
        self.store.put_state(after.duplicate())?;
        let record = params_record("project", vector_id, &before, &after, OperationKind::Project, params);
        let ghost rec = record@;
        let clock = after.version;
        let ts = after.updated_at_ms;
        let ghost log0 = self.store.event_log();
        let c = self.commit(Some(&before), &after, record, OperationType::Project, clock, ts);
        proof {
            if log_has_room(old(self).store.event_log()) {
                if event_ready(before@) {
                    lemma_commit_ok(log0, self.store.event_log(), Some(before@), after@, OperationTag::Project, clock, ts, c);
                }
                if state_valid(before@) && !components_fit(before@.components) {
                    lemma_commit_limit(log0, self.store.event_log(), Some(before@), after@, OperationTag::Project, clock, ts, c);
                }
            }
        }
        c?;
        proof {
            assert(record_offered(old(self).store.record_entries(), self.store.record_entries(), old(self).consensus, rec));
        }
        Ok(after)
    }
}

/// A side of a transfer after it: the moved components, a standard vector, certified.
pub open spec fn transferred(s: VectorView, components: Seq<u128>, checked_at: u64) -> VectorView {
    VectorView {
        components,
        vector_type: VectorType::Standard,
        certification: certification_of(components, s.certification.threshold, true, true, checked_at),
        ..s
    }
}

/// The record of one side of a transfer, as stored: certified as the side's new state.
pub open spec fn transfer_side_record(rec: RecordView, before: VectorView, after: VectorView, amount: Seq<u128>,
    direction: Seq<char>, prefix: Seq<char>) -> bool
{
    let params = transfer_params(amount, direction, after.version);
    record_of(rec, hash_hex(record_id_material(prefix, after.vector_id, params_text(params))), Some(before), after,
        OperationKindView::Transfer, params)
}

pub open spec fn reconstruct_params(tag: Seq<char>, gains: Seq<u128>, losses: Seq<u128>) -> Seq<(Seq<char>, ParamView)> {
    let p0 = sorted_insert(Seq::empty(), "outcome_tag"@, ParamView::Text(tag));
    let p1 = sorted_insert(p0, "gains"@, ParamView::Numbers(as_numbers(gains)));
    sorted_insert(p1, "losses"@, ParamView::Numbers(as_numbers(losses)))
}

fn transfer_records(before_from: &VectorStateV1, before_to: &VectorStateV1, after_from: &VectorStateV1,
    after_to: &VectorStateV1, amount: Vec<u128>) -> (r: (VectorRecordV1, VectorRecordV1))
    requires
        components_fit(amount@),
        before_from.type_metadata.wf(), before_to.type_metadata.wf(),
        after_from.type_metadata.wf(), after_to.type_metadata.wf(),
        after_from.spec_magnitude() <= u128::MAX, after_to.spec_magnitude() <= u128::MAX,
    ensures
        record_wf(&r.0), record_wf(&r.1),
        transfer_side_record(r.0@, before_from@, after_from@, amount@, "out"@, "transfer-out"@),
        transfer_side_record(r.1@, before_to@, after_to@, amount@, "in"@, "transfer-in"@),
{
    let ghost av = amount@;
    let (mut sender_record, mut receiver_record) = transfer_record(before_from, before_to, after_from, after_to, amount);
    sender_record.certification = after_from.certification.duplicate();
    receiver_record.certification = after_to.certification.duplicate();
    assert(transfer_params(av, "out"@, after_from.version).len() >= 0);
    assert(as_numbers(av) == av.map_values(|a: u128| a as u64));
    (sender_record, receiver_record)
}

impl KernelEngine {
    /// Moves an amount between two stored vectors, re-certifies both, and records and
    /// logs each side. A transfer from a vector to itself moves nothing: both sides are
    /// reported and the store is left as it was.
    #[verifier::rlimit(100)]
    pub fn transfer(&mut self, from_id: &str, to_id: &str, amount: Vec<u128>) -> (r: Result<(VectorStateV1, VectorStateV1), KernelXError>)
        requires
            old(self).wf(),
            components_fit(amount@),
            lookup(old(self).store.state_entries(), from_id@) matches Some(f) ==> sum_u128(f.components) <= u128::MAX,
            lookup(old(self).store.state_entries(), from_id@) matches Some(f) ==>
                (lookup(old(self).store.state_entries(), to_id@) matches Some(t) ==>
                    (f.components.len() == t.components.len() && amount@.len() == f.components.len()
                        ==> sum_u128(credited(t.components, amount@)) <= u128::MAX)),
        ensures
            final(self).wf(), final(self).consensus == old(self).consensus,
            r is Ok && from_id@ != to_id@ ==> final(self).store.event_log().len() == old(self).store.event_log().len() + 2,
            from_id@ == to_id@ ==> final(self).store == old(self).store,
            match lookup(old(self).store.state_entries(), from_id@) {
                None => r matches Err(KernelXError::VectorNotFound) && final(self).store == old(self).store,
                Some(f) => match lookup(old(self).store.state_entries(), to_id@) {
                    None => r matches Err(KernelXError::VectorNotFound) && final(self).store == old(self).store,
                    Some(t) => if f.components.len() != t.components.len() || amount@.len() != f.components.len() {
                        r matches Err(KernelXError::DimensionMismatch) && final(self).store == old(self).store
                    } else if exceeds_balance(amount@, f.components) {
                        r matches Err(KernelXError::InsufficientBalance) && final(self).store == old(self).store
                    } else {
                        &&& from_id@ == to_id@ ==> r is Ok
                        &&& event_ready(f) && event_ready(t) && components_fit(credited(t.components, amount@))
                            && log_has_room(old(self).store.event_log()) ==> r is Ok
                        &&& from_id@ != to_id@ && state_valid(f) && state_valid(t) && log_has_room(old(self).store.event_log())
                            && !(components_fit(f.components) && components_fit(t.components)
                                && components_fit(credited(t.components, amount@)))
                            ==> invalid_state(r, component_limit_message())
                        &&& r is Ok ==> {
                            let a = r->Ok_0.0@;
                            let b = r->Ok_0.1@;
                            &&& forall|i: int| 0 <= i < amount@.len() ==> #[trigger] a.components[i] == f.components[i] - amount@[i]
                            &&& forall|i: int| 0 <= i < amount@.len() && t.components[i] + amount@[i] <= u128::MAX ==>
                                #[trigger] b.components[i] == t.components[i] + amount@[i]
                            &&& a == transferred(f, debited(f.components, amount@), a.certification.last_checked_at_ms)
                            &&& b == transferred(t, credited(t.components, amount@), b.certification.last_checked_at_ms)
                        }
                        &&& r is Ok && from_id@ != to_id@ ==> {
                            let a = r->Ok_0.0@;
                            let b = r->Ok_0.1@;
                            &&& forall|i: int| 0 <= i < amount@.len() ==> #[trigger] b.components[i] == t.components[i] + amount@[i]
                            &&& forall|i: int| 0 <= i < amount@.len() ==>
                                #[trigger] a.components[i] + b.components[i] == f.components[i] + t.components[i]
                            &&& final(self).store.state_entries()
                                == sorted_insert(sorted_insert(old(self).store.state_entries(), from_id@, a), to_id@, b)
                            &&& exists|r1: RecordView, r2: RecordView, mid: Seq<(Seq<char>, RecordView)>|
                                transfer_side_record(r1, f, a, amount@, "out"@, "transfer-out"@)
                                && transfer_side_record(r2, t, b, amount@, "in"@, "transfer-in"@)
                                && record_offered(old(self).store.record_entries(), mid, old(self).consensus, r1)
                                && record_offered(mid, final(self).store.record_entries(), old(self).consensus, r2)
                            &&& exists|log: Seq<EventView>, t1: u64, t2: u64|
                                committed(old(self).store.event_log(), log, Some(f), a, OperationTag::Transfer, a.version, t1, Ok(()))
                                && committed(log, final(self).store.event_log(), Some(t), b, OperationTag::Transfer, b.version, t2, Ok(()))
                        }
                    },
                },
            },
    {
        let from = match self.store.get_state(from_id)? {
            Some(s) => s,
            None => { return Err(KernelXError::VectorNotFound); }
        };
        let to = match self.store.get_state(to_id)? {
            Some(s) => s,
            None => { return Err(KernelXError::VectorNotFound); }
        };
        let before_from = from.duplicate();
        let before_to = to.duplicate();
        let (mut after_from, mut after_to) = transfer_components(from, to, crate::state::copy_u128s(&amount))?;
        proof {
            assert forall|i: int| 0 <= i < after_from.components@.len() implies after_from.components@[i] <= before_from.components@[i] by {}
            lemma_sum_le(after_from.components@, before_from.components@);
        }
        after_from.certification = certify_state(&after_from, true, true);
        after_to.certification = certify_state(&after_to, true, true);
        proof {
            if state_valid(before_from@) { lemma_state_valid_no_problem(after_from@); }
            if state_valid(before_to@) { lemma_state_valid_no_problem(after_to@); }
        }
        if crate::strmap::str_eq(from_id, to_id) {
            return Ok((after_from, after_to));
        }
        validate_state(&after_from)?;
        validate_state(&after_to)?;
        self.store.put_state(after_from.duplicate())?;
        self.store.put_state(after_to.duplicate())?;
        let (sender_record, receiver_record) = transfer_records(&before_from, &before_to, &after_from, &after_to, amount);
        let ghost r1 = sender_record@;
        let ghost r2 = receiver_record@;
        let ghost rec0 = self.store.record_entries();
        let ghost log0 = self.store.event_log();
        let c1 = after_from.version;
        let t1 = now_ms();
        let k1 = self.commit(Some(&before_from), &after_from, sender_record, OperationType::Transfer, c1, t1);
        proof {
            if log_has_room(old(self).store.event_log()) && state_valid(before_from@) && state_valid(before_to@) {
                if components_fit(before_from@.components) {
                    assert(components_fit(after_from@.components));
                    lemma_commit_ok(log0, self.store.event_log(), Some(before_from@), after_from@, OperationTag::Transfer, c1, t1, k1);
                } else {
                    lemma_commit_limit(log0, self.store.event_log(), Some(before_from@), after_from@, OperationTag::Transfer, c1, t1, k1);
                }
            }
        }
        k1?;
        let ghost rec1 = self.store.record_entries();
        let ghost log1 = self.store.event_log();
        let c2 = after_to.version;
        let t2 = now_ms();
        let k2 = self.commit(Some(&before_to), &after_to, receiver_record, OperationType::Transfer, c2, t2);
        proof {
            if log_has_room(old(self).store.event_log()) && state_valid(before_from@) && state_valid(before_to@) {
                if components_fit(before_to@.components) && components_fit(after_to@.components) {
                    lemma_commit_ok(log1, self.store.event_log(), Some(before_to@), after_to@, OperationTag::Transfer, c2, t2, k2);
                } else {
                    lemma_commit_limit(log1, self.store.event_log(), Some(before_to@), after_to@, OperationTag::Transfer, c2, t2, k2);
                }
            }
        }
        k2?;
        proof {
            assert(record_offered(rec0, rec1, old(self).consensus, r1));
            assert(record_offered(rec1, self.store.record_entries(), old(self).consensus, r2));
            assert(committed(log0, log1, Some(before_from@), after_from@, OperationTag::Transfer, c1, t1, Ok(())));
            assert(committed(log1, self.store.event_log(), Some(before_to@), after_to@, OperationTag::Transfer, c2, t2, Ok(())));
            assert(rec0 == old(self).store.record_entries());
            assert(log0 == old(self).store.event_log());
            assert(transfer_side_record(r1, before_from@, after_from@, amount@, "out"@, "transfer-out"@));
            assert(after_from@ == transferred(before_from@, debited(before_from@.components, amount@), after_from.certification.last_checked_at_ms));
            assert(after_to@ == transferred(before_to@, credited(before_to@.components, amount@), after_to.certification.last_checked_at_ms));
        }
        Ok((after_from, after_to))
    }

    /// Settles a stored vector's escrow back into it, re-certifies it and records the change.
    pub fn reconstruct(&mut self, vector_id: &str, outcome: SettlementOutcome) -> (r: Result<VectorStateV1, KernelXError>)
        requires
            old(self).wf(),
            components_fit(outcome.gains@), components_fit(outcome.losses@),
            lookup(old(self).store.state_entries(), vector_id@) matches Some(s) ==> {
                &&& s.version < u64::MAX
                &&& (s.projection matches Some(p) ==> (
                        p.projected_components.len() == outcome.gains@.len() && p.projected_components.len() == outcome.losses@.len()
                        && p.projected_components.len() == s.components.len()
                        && !loss_exceeds(p.projected_components, outcome.gains@, outcome.losses@)
                        ==> sum_u128(restored_components(s.components,
                            settled_values(p.projected_components, outcome.gains@, outcome.losses@))) <= u128::MAX))
            },
        ensures
            final(self).wf(), final(self).consensus == old(self).consensus,
            r is Ok ==> final(self).store.event_log().len() == old(self).store.event_log().len() + 1,
            match lookup(old(self).store.state_entries(), vector_id@) {
                None => r matches Err(KernelXError::VectorNotFound) && final(self).store == old(self).store,
                Some(s) => match s.projection {
                    None => r matches Err(KernelXError::SettlementRejected(m)) && m@ == "missing projection"@
                        && final(self).store == old(self).store,
                    Some(p) => {
                        let pc = p.projected_components;
                        if !(pc.len() == outcome.gains@.len() && pc.len() == outcome.losses@.len() && pc.len() == s.components.len()) {
                            r matches Err(KernelXError::DimensionMismatch) && final(self).store == old(self).store
                        } else if loss_exceeds(pc, outcome.gains@, outcome.losses@) {
                            r matches Err(KernelXError::SettlementRejected(m)) && m@ == "loss exceeds projected value"@
                                && final(self).store == old(self).store
                        } else {
                            let restored = restored_components(s.components, settled_values(pc, outcome.gains@, outcome.losses@));
                            &&& event_ready(s) && components_fit(restored) && log_has_room(old(self).store.event_log()) ==> r is Ok
                            &&& state_valid(s) && log_has_room(old(self).store.event_log())
                                && !(components_fit(s.components) && components_fit(restored))
                                ==> invalid_state(r, component_limit_message())
                            &&& r is Ok ==> {
                                let u = r->Ok_0@;
                                &&& u.projection matches Some(up) && up.settlement_at_ms matches Some(at)
                                    && u == (VectorView {
                                        certification: certification_of(u.components, s.certification.threshold, true, true,
                                            u.certification.last_checked_at_ms),
                                        ..reconstructed_view(s, p, outcome.outcome_tag@, outcome.gains@, outcome.losses@, at, u.updated_at_ms)
                                    })
                                &&& final(self).store.state_entries() == sorted_insert(old(self).store.state_entries(), vector_id@, u)
                                &&& exists|rec: RecordView| record_of(rec, hash_hex(record_id_material("reconstruct"@, vector_id@,
                                        params_text(reconstruct_params(outcome.outcome_tag@, outcome.gains@, outcome.losses@)))),
                                        Some(s), u, OperationKindView::Reconstruct,
                                        reconstruct_params(outcome.outcome_tag@, outcome.gains@, outcome.losses@))
                                    && record_offered(old(self).store.record_entries(), final(self).store.record_entries(), old(self).consensus, rec)
                                &&& committed(old(self).store.event_log(), final(self).store.event_log(), Some(s), u,
                                        OperationTag::Reconstruct, u.version, u.updated_at_ms, Ok(()))
                            }
                        }
                    },
                },
            },
    {
        let state = match self.store.get_state(vector_id)? {
            Some(s) => s,
            None => { return Err(KernelXError::VectorNotFound); }
        };
        let before = state.duplicate();
        let mut params = RecordParams::new();
        params.insert(String::from_str("outcome_tag"), ParamValue::Text(outcome.outcome_tag.clone()));
        params.insert(String::from_str("gains"), ParamValue::Numbers(numbers_of(&outcome.gains)));
        params.insert(String::from_str("losses"), ParamValue::Numbers(numbers_of(&outcome.losses)));
        let mut after = reconstruct_vector(state, outcome)?;
        after.certification = certify_state(&after, true, true);
        proof { if state_valid(before@) { lemma_state_valid_no_problem(after@); } }
        validate_state(&after)?;
        self.store.put_state(after.duplicate())?;
        let record = params_record("reconstruct", vector_id, &before, &after, OperationKind::Reconstruct, params);
        let ghost rec = record@;
        let clock = after.version;
        let ts = after.updated_at_ms;
        let ghost log0 = self.store.event_log();
        let c = self.commit(Some(&before), &after, record, OperationType::Reconstruct, clock, ts);
        proof {
            if log_has_room(old(self).store.event_log()) {
                if event_ready(before@) && components_fit(after@.components) {
                    lemma_commit_ok(log0, self.store.event_log(), Some(before@), after@, OperationTag::Reconstruct, clock, ts, c);
                }
                if state_valid(before@) && !(components_fit(before@.components) && components_fit(after@.components)) {
                    lemma_commit_limit(log0, self.store.event_log(), Some(before@), after@, OperationTag::Reconstruct, clock, ts, c);
                }
            }
        }
        c?;
        proof {
            assert(record_offered(old(self).store.record_entries(), self.store.record_entries(), old(self).consensus, rec));
        }
        Ok(after)
    }
}


/// Counts and digests of an engine's contents.
#[derive(Debug)]
pub struct EngineMetrics {
    pub vector_count: usize,
    pub record_count: usize,
    pub region_count: usize,
    pub event_count: usize,
    pub replay_hash: String,
    pub state_root: Option<StateRoot>,
    pub healthy: bool,
}

impl KernelEngine {
    /// The numbers of vectors, records, regions and replayed events, the replay hash and
    /// the state root; a part that cannot be computed counts as zero (or empty).
    pub fn metrics(&self) -> (r: Result<EngineMetrics, KernelXError>)
        ensures
            r matches Ok(m) && {
                &&& m.vector_count == self.store.state_entries().len()
                &&& m.record_count == self.store.record_entries().len()
                &&& m.region_count == match region_listing(sorted_events(self.store.event_log())) {
                    Ok(list) => list.len(),
                    Err(_) => 0,
                }
                &&& match replay_spec(self.store.event_log()) {
                    Ok((st, applied, clock)) => m.event_count == applied.len()
                        && m.replay_hash@ == hash_hex(crate::hash::replay_material(applied)),
                    Err(_) => m.event_count == 0 && m.replay_hash@.len() == 0,
                }
                &&& m.state_root is Some
                &&& m.healthy
            },
    {
        let vectors = self.query_vectors()?;
        let records = self.query_records()?;
        proof {
            assert(crate::storage::state_views(vectors@).len() == vectors@.len());
            assert(crate::storage::record_views(records@).len() == records@.len());
        }
        let region_count = match self.query_regions() {
            Ok(v) => {
                proof { assert(crate::region::region_views(v@).len() == v@.len()); }
                v.len()
            }
            Err(_) => 0,
        };
        let (event_count, replay_hash) = match self.replay_canonical_history() {
            Ok(rp) => {
                proof { assert(crate::event::strings_view(rp.applied_event_hashes@).len() == rp.applied_event_hashes@.len()); }
                (rp.applied_event_hashes.len(), rp.replay_hash)
            }
            Err(_) => (0, String::new()),
        };
        let state_root = match self.current_state_root() {
            Ok(s) => Some(s),
            Err(_) => None,
        };
        Ok(EngineMetrics {
            vector_count: vectors.len(),
            record_count: records.len(),
            region_count,
            event_count,
            replay_hash,
            state_root,
            healthy: true,
        })
    }
}

} // verus!
