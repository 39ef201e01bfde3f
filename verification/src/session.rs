use vstd::prelude::*;
use vstd::string::StringExecFns;
use crate::dag::{dag_check, greedy_of, topological_order, validate_dag, views, SortKey};
use crate::engine::{sort_events, sorted_events};
use crate::event::{strings_view, EventView, VectorEvent};
use crate::hash::{canonical_event_hash, canonical_payload_hash, hash_hex};
use crate::replay::{replay_events, replay_spec, state_root_of, StateEntries};
use crate::hash::replay_material;
use crate::serialization::{canonical_event_payload_bytes, event_bytes, payload_bytes, utf8};
use crate::signature::{parsed_key, signature_check, verify_event_signature, verifying_key_from_hex};
use crate::state::StateRoot;
use crate::stateroot::{compute_state_root, state_set_root};
use crate::strmap::{key_order, lemma_lookup_insert, lemma_lookup_some, lookup, str_eq, StateMap, StringMap};
use crate::text::{chars_of, concat2, is_blank, lower_text, trim_lower, trimmed};
use crate::checked::{certify_refusal, drain_refusal, origin_refusal, overflow_refusal_text, project_refusal, reconstruct_refusal,
    transfer_refusal};
use crate::engine::{components_fit, insert_event};
use crate::checked::{origin_ready, reconstruct_ready, stored_ready, transfer_ready};
use crate::acceptance::log_has_room;
use crate::checked::{all_fit, checked_certify, checked_drain, checked_origin_create, checked_project, checked_reconstruct, checked_transfer};
use crate::engine::KernelEngine;
use crate::json::{json_map, json_map_text};
use crate::reconstruction::SettlementOutcome;
use crate::region::text_bytes;
use crate::state::VectorStateV1;
use crate::strmap::sorted_insert;
use crate::certification::certification_of;
use crate::engine::{certified_state, drained_state, origin_state, transferred};
use crate::projection::projected_view;
use crate::reconstruction::reconstructed_view;
use crate::state::VectorView;
use crate::transfer::{credited, debited};
use crate::storage::{EventStore, StateStore};
use crate::validation::{event_check, validate_event};

verus! {

/// What checking one event reports.
#[derive(Clone, Debug)]
pub struct EventCheck {
    pub event_id: String,
    pub structure_ok: bool,
    pub payload_hash_ok: bool,
    pub event_hash_ok: bool,
    pub hashes_ok: bool,
    pub signature_ok: bool,
    pub signature_error: Option<String>,
    pub dag_ok: bool,
}

/// Whether an event's signature verifies, and the error text when it could not be checked.
/// An event without an actor key or a signature is reported unsigned, with no error.
pub open spec fn signature_outcome(e: EventView) -> (bool, Option<Seq<char>>) {
    if e.actor_public_key.len() == 0 || e.signature.len() == 0 {
        (false, None)
    } else {
        match parsed_key(utf8(e.actor_public_key)) {
            Err(m) => (false, Some(m)),
            Ok(k) => match signature_check(k, payload_bytes(e), utf8(e.signature)) {
                Ok(b) => (b, None),
                Err(m) => (false, Some(m)),
            },
        }
    }
}

/// `c` is what checking event `e` reports.
#[verifier::opaque]
pub open spec fn reports_check(c: EventCheck, e: EventView) -> bool {
    &&& c.event_id@ == e.event_id
    &&& c.structure_ok == event_check(e) is Ok
    &&& c.payload_hash_ok == (hash_hex(payload_bytes(e)) == e.payload_hash)
    &&& c.event_hash_ok == (hash_hex(event_bytes(e)) == e.event_hash)
    &&& c.hashes_ok == (c.payload_hash_ok && c.event_hash_ok)
    &&& (c.signature_ok, match c.signature_error { Some(s) => Some(s@), None => None }) == signature_outcome(e)
    &&& c.dag_ok == dag_check(seq![e]) is Ok
}

/// Checks one event: its structure, both hashes, its signature and the one-event DAG.
pub fn validate_event_internal(event: &VectorEvent) -> (r: EventCheck)
    ensures reports_check(r, event@),
{
    let structure_ok = validate_event(event).is_ok();
    let payload_hash = canonical_payload_hash(event);
    let event_hash = canonical_event_hash(event);
    let payload_hash_ok = str_eq(payload_hash.as_str(), event.payload_hash.as_str());
    let event_hash_ok = str_eq(event_hash.as_str(), event.event_hash.as_str());
    let mut signature_ok = false;
    let mut signature_error: Option<String> = None;
    if chars_of(event.actor_public_key.as_str()).len() > 0 && chars_of(event.signature.as_str()).len() > 0 {
        match verifying_key_from_hex(event.actor_public_key.as_str()) {
            Ok(vk) => {
                let payload = canonical_event_payload_bytes(event);
                match verify_event_signature(&vk, payload.as_slice(), event.signature.as_str()) {
                    Ok(ok) => { signature_ok = ok; }
                    Err(e) => { signature_error = Some(e); }
                }
            }
            Err(e) => { signature_error = Some(e); }
        }
    }
    let one = vec![event.duplicate()];
    assert(views(one@) =~= seq![event@]);
    let dag_ok = validate_dag(one.as_slice()).is_ok();
    proof { reveal(reports_check); }
    EventCheck {
        event_id: event.event_id.clone(),
        structure_ok,
        payload_hash_ok,
        event_hash_ok,
        hashes_ok: payload_hash_ok && event_hash_ok,
        signature_ok,
        signature_error,
        dag_ok,
    }
}

/// Whether a check passes as a record: hashes, signature and DAG all hold.
pub open spec fn check_passes(c: EventCheck) -> bool {
    c.hashes_ok && c.signature_ok && c.dag_ok
}

/// Checks a batch of events, one report each, and whether every report passes.
pub fn check_events(events: &Vec<VectorEvent>) -> (r: (Vec<EventCheck>, bool))
    ensures
        r.0@.len() == events@.len(),
        forall|i: int| 0 <= i < events@.len() ==> reports_check(#[trigger] r.0@[i], events@[i]@),
        r.1 == forall|i: int| 0 <= i < events@.len() ==> check_passes(#[trigger] r.0@[i]),
{
    let mut results: Vec<EventCheck> = Vec::new();
    let mut all_ok = true;
    let mut i: usize = 0;
    while i < events.len()
        invariant
            i <= events.len(), results@.len() == i,
            forall|j: int| 0 <= j < i ==> reports_check(#[trigger] results@[j], events@[j]@),
            all_ok == forall|j: int| 0 <= j < i ==> check_passes(#[trigger] results@[j]),
        decreases events.len() - i,
    {
        let c = validate_event_internal(&events[i]);
        if !(c.hashes_ok && c.signature_ok && c.dag_ok) {
            all_ok = false;
        }
        let ghost prev = results@;
        results.push(c);
        proof {
            assert(results@[i as int] == c);
            assert forall|j: int| 0 <= j < i implies results@[j] == prev[j] by {}
            if all_ok {
                assert forall|j: int| 0 <= j < i + 1 implies check_passes(#[trigger] results@[j]) by {
                    if j < i { assert(results@[j] == prev[j]); }
                }
            } else {
                if check_passes(c) {
                    let j = choose|j: int| 0 <= j < i && !check_passes(#[trigger] prev[j]);
                    assert(results@[j] == prev[j]);
                } else {
                    assert(!check_passes(results@[i as int]));
                }
            }
        }
        i += 1;
    }
    (results, all_ok)
}

/// Whether an event verifies as a record: both hashes match, its signature verifies and
/// the one-event DAG is sound.
pub open spec fn record_verifies(e: EventView) -> bool {
    &&& hash_hex(payload_bytes(e)) == e.payload_hash
    &&& hash_hex(event_bytes(e)) == e.event_hash
    &&& signature_outcome(e).0
    &&& dag_check(seq![e]) is Ok
}

/// Verifies an event as a record: its hashes, signature and one-event DAG must all hold.
pub fn verify_record(event: &VectorEvent) -> (r: Result<(), String>)
    ensures
        r is Ok == record_verifies(event@),
        r matches Err(m) ==> m@ == "record verification failed"@,
{
    let c = validate_event_internal(event);
    proof { reveal(reports_check); }
    if c.hashes_ok && c.signature_ok && c.dag_ok {
        Ok(())
    } else {
        Err(String::from_str("record verification failed"))
    }
}

/// Whether some event lists `h` among its parents.
pub open spec fn referenced(es: Seq<EventView>, h: Seq<char>) -> bool {
    exists|i: int, j: int| 0 <= i < es.len() && 0 <= j < es[i].parent_hashes.len() && #[trigger] es[i].parent_hashes[j] == h
}

/// Whether `h` is the hash of an event that no event lists as a parent.
pub open spec fn is_head(es: Seq<EventView>, h: Seq<char>) -> bool {
    (exists|i: int| 0 <= i < es.len() && #[trigger] es[i].event_hash == h) && !referenced(es, h)
}

/// Whether some event lists `hash` among its parents.
fn is_referenced(events: &[VectorEvent], hash: &str) -> (r: bool)
    ensures r == referenced(views(events@), hash@),
{
    let ghost es = views(events@);
    let mut i: usize = 0;
    while i < events.len()
        invariant
            i <= events.len(), es == views(events@),
            forall|a: int, b: int| 0 <= a < i && 0 <= b < es[a].parent_hashes.len() ==> #[trigger] es[a].parent_hashes[b] != hash@,
        decreases events.len() - i,
    {
        let ps = &events[i].parent_hashes;
        assert(es[i as int] == events@[i as int]@);
        let mut j: usize = 0;
        while j < ps.len()
            invariant
                i < events.len(), j <= ps.len(), es == views(events@), ps@ == events@[i as int].parent_hashes@,
                es[i as int] == events@[i as int]@,
                forall|b: int| 0 <= b < j ==> #[trigger] es[i as int].parent_hashes[b] != hash@,
            decreases ps.len() - j,
        {
            assert(es[i as int].parent_hashes[j as int] == ps@[j as int]@);
            if str_eq(ps[j].as_str(), hash) {
                assert(es[i as int].parent_hashes[j as int] == hash@);
                return true;
            }
            j += 1;
        }
        assert(es[i as int].parent_hashes.len() == ps@.len());
        i += 1;
    }
    false
}

/// `r` lists the heads of `es`: strictly increasing, each a head, every head listed.
pub open spec fn heads_are(r: Seq<String>, es: Seq<EventView>) -> bool {
    &&& forall|i: int, j: int| 0 <= i < j < r.len() ==> key_order(#[trigger] r[i]@, #[trigger] r[j]@) < 0
    &&& forall|h: Seq<char>| strings_view(r).contains(h) <==> is_head(es, h)
}

/// The hashes of the events no event names as a parent, sorted and without repeats.
pub fn compute_heads(events: &[VectorEvent]) -> (r: Vec<String>)
    ensures heads_are(r@, views(events@)),
{
    let ghost es = views(events@);
    let mut heads = StringMap::new();
    let mut k: usize = 0;
    while k < events.len()
        invariant
            k <= events.len(), es == views(events@), heads.wf(),
            forall|h: Seq<char>| #[trigger] lookup(heads@, h) is Some <==>
                ((exists|a: int| 0 <= a < k && #[trigger] es[a].event_hash == h) && !referenced(es, h)),
        decreases events.len() - k,
    {
        let h = &events[k].event_hash;
        let found = is_referenced(events, h.as_str());
        let ghost old_heads = heads@;
        if !found {
            heads.insert(h.clone(), String::new());
        }
        proof {
            assert(es[k as int].event_hash == h@);
            assert forall|x: Seq<char>| #[trigger] lookup(heads@, x) is Some <==>
                ((exists|a: int| 0 <= a < k + 1 && #[trigger] es[a].event_hash == x) && !referenced(es, x)) by {
                if !found { lemma_lookup_insert(old_heads, h@, Seq::<char>::empty(), x); }
                if exists|a: int| 0 <= a < k + 1 && #[trigger] es[a].event_hash == x {
                    let a = choose|a: int| 0 <= a < k + 1 && #[trigger] es[a].event_hash == x;
                    if a < k { assert(exists|a2: int| 0 <= a2 < k && #[trigger] es[a2].event_hash == x); }
                }
                if exists|a: int| 0 <= a < k && #[trigger] es[a].event_hash == x {
                    let a = choose|a: int| 0 <= a < k && #[trigger] es[a].event_hash == x;
                    assert(0 <= a < k + 1 && es[a].event_hash == x);
                }
            }
        }
        k += 1;
    }
    let mut out: Vec<String> = Vec::new();
    let mut n: usize = 0;
    while n < heads.entries.len()
        invariant
            n <= heads.entries.len(), out@.len() == n,
            forall|a: int| 0 <= a < n ==> (#[trigger] out@[a])@ == heads.entries@[a].0@,
        decreases heads.entries.len() - n,
    {
        out.push(heads.entries[n].0.clone());
        n += 1;
    }
    proof {
        assert forall|i: int, j: int| 0 <= i < j < out@.len() implies key_order(#[trigger] out@[i]@, #[trigger] out@[j]@) < 0 by {
            assert(heads@[i].0 == out@[i]@ && heads@[j].0 == out@[j]@);
        }
        assert forall|h: Seq<char>| strings_view(out@).contains(h) <==> is_head(es, h) by {
            lemma_lookup_some(heads@, h);
            if strings_view(out@).contains(h) {
                let a = choose|a: int| 0 <= a < strings_view(out@).len() && strings_view(out@)[a] == h;
                assert(heads@[a].0 == h);
            }
            if lookup(heads@, h) is Some {
                let a = choose|a: int| 0 <= a < heads@.len() && (#[trigger] heads@[a]).0 == h;
                assert(strings_view(out@)[a] == h);
            }
        }
    }
    out
}


/// Whether some event carries hash `h`.
pub open spec fn has_hash(es: Seq<EventView>, h: Seq<char>) -> bool {
    exists|i: int| 0 <= i < es.len() && #[trigger] es[i].event_hash == h
}

/// The events of `after`, in order, whose hash no event of `before` carries.
pub open spec fn fresh_events(before: Seq<EventView>, after: Seq<EventView>) -> Seq<EventView>
    decreases after.len(),
{
    if after.len() == 0 {
        Seq::empty()
    } else {
        let p = fresh_events(before, after.drop_last());
        if has_hash(before, after.last().event_hash) { p } else { p.push(after.last()) }
    }
}

fn has_event_hash(events: &Vec<VectorEvent>, hash: &str) -> (r: bool)
    ensures r == has_hash(views(events@), hash@),
{
    let ghost es = views(events@);
    let mut i: usize = 0;
    while i < events.len()
        invariant i <= events.len(), es == views(events@), forall|a: int| 0 <= a < i ==> #[trigger] es[a].event_hash != hash@,
        decreases events.len() - i,
    {
        assert(es[i as int].event_hash == events@[i as int].event_hash@);
        if str_eq(events[i].event_hash.as_str(), hash) {
            return true;
        }
        i += 1;
    }
    false
}

/// The events of `after` that `before` lacks (by hash), in event order.
pub fn collect_new_events(before: &Vec<VectorEvent>, after: &Vec<VectorEvent>) -> (r: Vec<VectorEvent>)
    ensures views(r@) == sorted_events(fresh_events(views(before@), views(after@))),
{
    let ghost va = views(after@);
    let mut out: Vec<VectorEvent> = Vec::new();
    let mut i: usize = 0;
    assert(va.take(0) =~= Seq::<EventView>::empty());
    while i < after.len()
        invariant i <= after.len(), va == views(after@), views(out@) == fresh_events(views(before@), va.take(i as int)),
        decreases after.len() - i,
    {
        assert(va.take(i + 1).drop_last() =~= va.take(i as int));
        assert(va.take(i + 1).last() == after@[i as int]@);
        if !has_event_hash(before, after[i].event_hash.as_str()) {
            out.push(after[i].duplicate());
            assert(views(out@) =~= fresh_events(views(before@), va.take(i as int)).push(after@[i as int]@));
        }
        i += 1;
    }
    assert(va.take(after.len() as int) =~= va);
    sort_events(&out)
}

/// A replay summary: the replay's outcome, counts, and the heads of the replayed events.
#[derive(Debug)]
pub struct ReplaySummary {
    pub state_root: StateRoot,
    pub replay_hash: String,
    pub applied_event_hashes: Vec<String>,
    pub final_state: StateMap,
    pub event_count: u64,
    pub latest_clock: u64,
    pub heads: Vec<String>,
    pub verified: bool,
}

/// `s` summarizes a replay ending in state `st` after applying `applied` up to clock `clock`.
pub open spec fn summary_is(s: ReplaySummary, st: StateEntries, applied: Seq<Seq<char>>, clock: u64) -> bool {
    &&& s.final_state@ == st
    &&& strings_view(s.applied_event_hashes@) == applied
    &&& s.state_root@ == state_root_of(st, applied.len() as u64, clock)
    &&& s.replay_hash@ == hash_hex(replay_material(applied))
    &&& s.event_count == applied.len()
    &&& s.latest_clock == s.state_root.logical_clock
    &&& s.verified
}

/// The summary of replaying nothing.
pub open spec fn empty_summary(s: ReplaySummary) -> bool {
    &&& s.state_root@ == state_set_root(Seq::empty(), 0)
    &&& s.replay_hash@ == Seq::<char>::empty()
    &&& s.applied_event_hashes@.len() == 0
    &&& s.final_state@.len() == 0
    &&& s.event_count == 0
    &&& s.latest_clock == 0
    &&& s.heads@.len() == 0
    &&& s.verified
}

/// The events of a batch in DAG replay order.
pub open spec fn batch_order(es: Seq<EventView>) -> Seq<EventView> {
    if es.len() == 0 { Seq::empty() } else { greedy_of(es, SortKey::Dag).map_values(|k: int| es[k]) }
}

/// What replaying a batch gives.
pub open spec fn batch_replay_ok(es: Seq<EventView>, r: Result<ReplaySummary, String>) -> bool {
    if es.len() > 0 && dag_check(es) is Err {
        r matches Err(e) && e@ == "batch ordering error: "@ + dag_check(es)->Err_0
    } else if batch_order(es).len() == 0 {
        r matches Ok(s) && empty_summary(s)
    } else {
        match replay_spec(batch_order(es)) {
            Err(m) => r matches Err(e) && e@ == "replay error: "@ + m,
            Ok((st, applied, clock)) => r matches Ok(s) && summary_is(s, st, applied, clock)
                && heads_are(s.heads@, batch_order(es)),
        }
    }
}

/// Replays a batch of events in DAG order, with the heads of the batch.
pub fn replay_from_events(events: &Vec<VectorEvent>) -> (r: Result<ReplaySummary, String>)
    ensures batch_replay_ok(views(events@), r),
{
    let ghost es = views(events@);
    let ordered: Vec<VectorEvent> = if events.len() == 0 {
        Vec::new()
    } else {
        match topological_order(events.as_slice()) {
            Ok(o) => o,
            Err(e) => { return Err(concat2("batch ordering error: ", e.as_str())); }
        }
    };
    assert(views(ordered@) =~= batch_order(es));
    if ordered.len() == 0 {
        let empty_states: Vec<crate::state::VectorStateV1> = Vec::new();
        let state_root = compute_state_root(empty_states.as_slice(), 0);
        assert(crate::stateroot::vector_views(empty_states@) =~= Seq::empty());
        return Ok(ReplaySummary {
            state_root,
            replay_hash: String::new(),
            applied_event_hashes: Vec::new(),
            final_state: StateMap::new(),
            event_count: 0,
            latest_clock: 0,
            heads: Vec::new(),
            verified: true,
        });
    }
    let result = match replay_events(ordered.as_slice()) {
        Ok(x) => x,
        Err(e) => { return Err(concat2("replay error: ", e.as_str())); }
    };
    let heads = compute_heads(ordered.as_slice());
    let latest_clock = result.state_root.logical_clock;
    let event_count = result.applied_event_hashes.len() as u64;
    Ok(ReplaySummary {
        state_root: result.state_root,
        replay_hash: result.replay_hash,
        applied_event_hashes: result.applied_event_hashes,
        final_state: result.final_state,
        event_count,
        latest_clock,
        heads,
        verified: true,
    })
}


/// The engine's replay of `log` succeeds, and a batch replay of its events in event order
/// succeeds with the same state root and replay hash.
pub open spec fn replay_check_passes(log: Seq<EventView>) -> bool {
    replay_spec(log) matches Ok((st, applied, clock)) && {
        let es = sorted_events(log);
        let root = state_root_of(st, applied.len() as u64, clock);
        let rh = hash_hex(replay_material(applied));
        if es.len() > 0 && dag_check(es) is Err {
            false
        } else if batch_order(es).len() == 0 {
            state_set_root(Seq::empty(), 0) == root && Seq::<char>::empty() == rh
        } else {
            match replay_spec(batch_order(es)) {
                Err(_) => false,
                Ok((st2, a2, c2)) => state_root_of(st2, a2.len() as u64, c2) == root && hash_hex(replay_material(a2)) == rh,
            }
        }
    }
}

/// The engine's replay of its own history, checked against a batch replay of the same
/// events: their state roots and replay hashes must agree.
pub fn engine_replay_summary(engine: &KernelEngine) -> (r: Result<ReplaySummary, String>)
    ensures
        r is Ok <==> replay_check_passes(engine.store.event_log()),
        replay_spec(engine.store.event_log()) matches Err(m) ==> (r matches Err(e) && e@ == "invalid vector state: "@ + m),
        r matches Ok(s) ==> (replay_spec(engine.store.event_log()) matches Ok((st, applied, clock))
            && summary_is(s, st, applied, clock) && heads_are(s.heads@, sorted_events(engine.store.event_log()))),
{
    let replay = match engine.replay_canonical_history() {
        Ok(r) => r,
        Err(e) => { return Err(e.message()); }
    };
    let events = match engine.query_events() {
        Ok(v) => v,
        Err(e) => { return Err(e.message()); }
    };
    let heads = compute_heads(events.as_slice());
    let canonical = replay_from_events(&events)?;
    let same_root = str_eq(canonical.state_root.root_hash.as_str(), replay.state_root.root_hash.as_str())
        && canonical.state_root.event_count == replay.state_root.event_count
        && canonical.state_root.logical_clock == replay.state_root.logical_clock;
    if !same_root {
        return Err(String::from_str("replay divergence detected between engine replay and canonical batch replay"));
    }
    if !str_eq(canonical.replay_hash.as_str(), replay.replay_hash.as_str()) {
        return Err(String::from_str("replay hash divergence detected between engine replay and canonical batch replay"));
    }
    let event_count = replay.applied_event_hashes.len() as u64;
    let latest_clock = replay.state_root.logical_clock;
    Ok(ReplaySummary {
        state_root: replay.state_root,
        replay_hash: replay.replay_hash,
        applied_event_hashes: replay.applied_event_hashes,
        final_state: replay.final_state,
        event_count,
        latest_clock,
        heads,
        verified: true,
    })
}

/// A signed request to run one operation.
#[derive(Clone, Debug)]
pub struct SubmitEventRequest {
    pub request_id: String,
    pub operation: String,
    pub actor_public_key: String,
    pub signature: String,
    /// The parameters as JSON text.
    pub params_json: String,
}

/// The operations a request can run.
#[derive(Clone, Copy, Debug, PartialEq, Eq, Structural)]
pub enum SubmitOperation {
    OriginCreate,
    Transfer,
    Drain,
    Project,
    Reconstruct,
    Certify,
}

/// The normalized name of an operation: trimmed and lower-cased.
pub fn operation_name(operation: &str) -> (r: String)
    ensures r@ == lower_text(trimmed(operation@)),
{
    trim_lower(operation)
}

/// The operation a normalized name names.
pub open spec fn operation_of(name: Seq<char>) -> Option<SubmitOperation> {
    if name == "origin_create"@ || name == "create"@ || name == "origin"@ { Some(SubmitOperation::OriginCreate) }
    else if name == "transfer"@ { Some(SubmitOperation::Transfer) }
    else if name == "drain"@ { Some(SubmitOperation::Drain) }
    else if name == "project"@ { Some(SubmitOperation::Project) }
    else if name == "reconstruct"@ { Some(SubmitOperation::Reconstruct) }
    else if name == "certify"@ { Some(SubmitOperation::Certify) }
    else { None }
}

impl SubmitOperation {
    pub open spec fn label_text(self) -> Seq<char> {
        match self {
            SubmitOperation::OriginCreate => "origin_create"@,
            SubmitOperation::Transfer => "transfer"@,
            SubmitOperation::Drain => "drain"@,
            SubmitOperation::Project => "project"@,
            SubmitOperation::Reconstruct => "reconstruct"@,
            SubmitOperation::Certify => "certify"@,
        }
    }

    /// The operation's name in reports.
    pub fn label(&self) -> (r: &'static str)
        ensures r@ == self.label_text(),
    {
        match self {
            SubmitOperation::OriginCreate => "origin_create",
            SubmitOperation::Transfer => "transfer",
            SubmitOperation::Drain => "drain",
            SubmitOperation::Project => "project",
            SubmitOperation::Reconstruct => "reconstruct",
            SubmitOperation::Certify => "certify",
        }
    }
}

/// The operation a request names, or the error for an unsupported one.
pub fn operation_kind(operation: &str) -> (r: Result<SubmitOperation, String>)
    ensures
        match operation_of(lower_text(trimmed(operation@))) {
            Some(k) => r == Ok::<SubmitOperation, String>(k),
            None => r matches Err(m) && m@ == "unsupported operation: "@ + lower_text(trimmed(operation@)),
        },
{
    let name = operation_name(operation);
    let n = name.as_str();
    if str_eq(n, "origin_create") || str_eq(n, "create") || str_eq(n, "origin") { Ok(SubmitOperation::OriginCreate) }
    else if str_eq(n, "transfer") { Ok(SubmitOperation::Transfer) }
    else if str_eq(n, "drain") { Ok(SubmitOperation::Drain) }
    else if str_eq(n, "project") { Ok(SubmitOperation::Project) }
    else if str_eq(n, "reconstruct") { Ok(SubmitOperation::Reconstruct) }
    else if str_eq(n, "certify") { Ok(SubmitOperation::Certify) }
    else { Err(concat2("unsupported operation: ", n)) }
}

/// The parameters of an origin creation.
#[derive(Clone, Debug)]
pub struct OriginCreateRequest {
    pub vector_id: String,
    pub owner_pubkey: String,
    pub space_id: String,
    pub components: Vec<u128>,
    pub seed: String,
    pub nonce: u64,
    pub difficulty: u32,
}

/// The parameters of a transfer.
#[derive(Clone, Debug)]
pub struct TransferRequest {
    pub from_id: String,
    pub to_id: String,
    pub amount: Vec<u128>,
}

/// The parameters of a drain.
#[derive(Clone, Debug)]
pub struct DrainRequest {
    pub vector_id: String,
    pub basis_points: u16,
}

/// The parameters of a projection.
#[derive(Clone, Debug)]
pub struct ProjectRequest {
    pub vector_id: String,
    pub projected_components: Vec<u128>,
    pub escrow_id: String,
}

/// The parameters of a settlement.
#[derive(Clone, Debug)]
pub struct ReconstructRequest {
    pub vector_id: String,
    pub outcome_tag: String,
    pub gains: Vec<u128>,
    pub losses: Vec<u128>,
}

/// The parameters of a certification.
#[derive(Clone, Debug)]
pub struct CertifyRequest {
    pub vector_id: String,
}

/// The typed parameters of an operation.
#[derive(Clone, Debug)]
pub enum SubmitPayload {
    OriginCreate(OriginCreateRequest),
    Transfer(TransferRequest),
    Drain(DrainRequest),
    Project(ProjectRequest),
    Reconstruct(ReconstructRequest),
    Certify(CertifyRequest),
}

/// Whether the parameters were read, or the reader's error text.
pub open spec fn parse_status(parsed: Result<SubmitPayload, String>) -> Result<(), Seq<char>> {
    match parsed {
        Ok(_) => Ok(()),
        Err(e) => Err(e@),
    }
}

/// Whether the parameters were read, or the reader's error text.
pub open spec fn status_view(status: Result<(), String>) -> Result<(), Seq<char>> {
    match status {
        Ok(()) => Ok(()),
        Err(e) => Err(e@),
    }
}

/// The shape check of a request: a supported operation whose parameters were read.
pub open spec fn shape_of(operation: Seq<char>, parsed: Result<(), Seq<char>>) -> Result<SubmitOperation, Seq<char>> {
    match operation_of(lower_text(trimmed(operation))) {
        None => Err("unsupported operation: "@ + lower_text(trimmed(operation))),
        Some(k) => match parsed {
            Ok(()) => Ok(k),
            Err(e) => Err(k.label_text() + " params invalid: "@ + e),
        },
    }
}

/// Checks that the operation is supported and its parameters were read.
pub fn validate_operation_shape(operation: &str, parsed: &Result<(), String>) -> (r: Result<SubmitOperation, String>)
    ensures
        match shape_of(operation@, status_view(*parsed)) {
            Ok(k) => r == Ok::<SubmitOperation, String>(k),
            Err(m) => r matches Err(e) && e@ == m,
        },
{
    let kind = operation_kind(operation)?;
    match parsed {
        Ok(_) => Ok(kind),
        Err(e) => {
            let prefix = concat2(kind.label(), " params invalid: ");
            Err(concat2(prefix.as_str(), e.as_str()))
        }
    }
}

pub struct SubmitView {
    pub request_id: Seq<char>,
    pub operation: Seq<char>,
    pub actor_public_key: Seq<char>,
    pub signature: Seq<char>,
    pub params_json: Seq<char>,
}

impl View for SubmitEventRequest {
    type V = SubmitView;

    open spec fn view(&self) -> SubmitView {
        SubmitView {
            request_id: self.request_id@,
            operation: self.operation@,
            actor_public_key: self.actor_public_key@,
            signature: self.signature@,
            params_json: self.params_json@,
        }
    }
}

/// The entries a request is signed over.
pub open spec fn submit_payload(r: SubmitView) -> Seq<(Seq<char>, Seq<char>)> {
    let p1 = sorted_insert(Seq::empty(), "request_id"@, r.request_id);
    let p2 = sorted_insert(p1, "operation"@, r.operation);
    let p3 = sorted_insert(p2, "actor_public_key"@, r.actor_public_key);
    sorted_insert(p3, "params"@, r.params_json)
}

/// The bytes a request is signed over: its payload entries as JSON.
pub open spec fn submit_bytes(r: SubmitView) -> Seq<u8> {
    utf8(json_map_text(submit_payload(r)))
}

/// The canonical bytes a request is signed over.
pub fn canonical_submit_request_bytes(request: &SubmitEventRequest) -> (r: Vec<u8>)
    ensures r@ == submit_bytes(request@),
{
    let mut payload = StringMap::new();
    payload.insert(String::from_str("request_id"), request.request_id.clone());
    payload.insert(String::from_str("operation"), request.operation.clone());
    payload.insert(String::from_str("actor_public_key"), request.actor_public_key.clone());
    payload.insert(String::from_str("params"), request.params_json.clone());
    let text = json_map(&payload);
    text_bytes(&text)
}

/// Whether the request's signature verifies over its canonical bytes under its actor key,
/// once its operation shape holds (no blank-field or duplicate checks).
pub open spec fn submit_signature_check(r: SubmitView, parsed: Result<(), Seq<char>>) -> Result<bool, Seq<char>> {
    match shape_of(r.operation, parsed) {
        Err(m) => Err(m),
        Ok(_) => match parsed_key(utf8(r.actor_public_key)) {
            Err(m) => Err(m),
            Ok(k) => signature_check(k, submit_bytes(r), utf8(r.signature)),
        },
    }
}

/// Checks a request's shape and signature; whether the signature verifies.
pub fn check_submit_signature(request: &SubmitEventRequest, parsed: &Result<(), String>) -> (r: Result<bool, String>)
    ensures
        match submit_signature_check(request@, status_view(*parsed)) {
            Ok(b) => r == Ok::<bool, String>(b),
            Err(m) => r matches Err(e) && e@ == m,
        },
{
    validate_operation_shape(request.operation.as_str(), parsed)?;
    let key = verifying_key_from_hex(request.actor_public_key.as_str())?;
    let bytes = canonical_submit_request_bytes(request);
    verify_event_signature(&key, bytes.as_slice(), request.signature.as_str())
}

/// Whether a string is among the seen ones.
pub open spec fn seen_contains(seen: Seq<String>, id: Seq<char>) -> bool {
    exists|i: int| 0 <= i < seen.len() && #[trigger] seen[i]@ == id
}

/// The full check of a request: required fields, shape, a fresh request id and a valid signature.
pub open spec fn submit_validation(seen: Seq<String>, r: SubmitView, parsed: Result<(), Seq<char>>)
    -> Result<SubmitOperation, Seq<char>>
{
    if trimmed(r.request_id).len() == 0 {
        Err("missing request_id"@)
    } else if trimmed(r.actor_public_key).len() == 0 {
        Err("missing actor_public_key"@)
    } else if trimmed(r.signature).len() == 0 {
        Err("missing signature"@)
    } else {
        match shape_of(r.operation, parsed) {
            Err(m) => Err(m),
            Ok(k) => if seen_contains(seen, r.request_id) {
                Err("duplicate request_id: "@ + r.request_id)
            } else {
                match parsed_key(utf8(r.actor_public_key)) {
                    Err(m) => Err(m),
                    Ok(key) => match signature_check(key, submit_bytes(r), utf8(r.signature)) {
                        Err(m) => Err("request signature verification error: "@ + m),
                        Ok(false) => Err("request signature verification failed"@),
                        Ok(true) => Ok(k),
                    },
                }
            },
        }
    }
}

fn contains_id(seen: &Vec<String>, id: &str) -> (r: bool)
    ensures r == seen_contains(seen@, id@),
{
    let mut i: usize = 0;
    while i < seen.len()
        invariant i <= seen.len(), forall|a: int| 0 <= a < i ==> (#[trigger] seen@[a])@ != id@,
        decreases seen.len() - i,
    {
        if str_eq(seen[i].as_str(), id) {
            return true;
        }
        i += 1;
    }
    false
}

/// Checks a request against the ids already seen: required fields, shape, a fresh
/// request id and a signature that verifies.
pub fn validate_submit_request(seen: &Vec<String>, request: &SubmitEventRequest, parsed: &Result<(), String>)
    -> (r: Result<SubmitOperation, String>)
    ensures
        match submit_validation(seen@, request@, status_view(*parsed)) {
            Ok(k) => r == Ok::<SubmitOperation, String>(k),
            Err(m) => r matches Err(e) && e@ == m,
        },
{
    if is_blank(request.request_id.as_str()) {
        return Err(String::from_str("missing request_id"));
    }
    if is_blank(request.actor_public_key.as_str()) {
        return Err(String::from_str("missing actor_public_key"));
    }
    if is_blank(request.signature.as_str()) {
        return Err(String::from_str("missing signature"));
    }
    let kind = validate_operation_shape(request.operation.as_str(), parsed)?;
    if contains_id(seen, request.request_id.as_str()) {
        return Err(concat2("duplicate request_id: ", request.request_id.as_str()));
    }
    let key = verifying_key_from_hex(request.actor_public_key.as_str())?;
    let bytes = canonical_submit_request_bytes(request);
    match verify_event_signature(&key, bytes.as_slice(), request.signature.as_str()) {
        Err(e) => Err(concat2("request signature verification error: ", e.as_str())),
        Ok(false) => Err(String::from_str("request signature verification failed")),
        Ok(true) => Ok(kind),
    }
}


/// What an operation returned.
#[derive(Debug)]
pub enum OperationOutput {
    State(VectorStateV1),
    Transfer(VectorStateV1, VectorStateV1),
}

/// What running an operation reports: its name and result, the events it added, the
/// number of events, the latest clock, and the checked replay.
#[derive(Debug)]
pub struct Collected {
    pub operation: String,
    pub result: OperationOutput,
    pub records: Vec<VectorEvent>,
    pub event_count: u64,
    pub latest_clock: u64,
    pub replay: ReplaySummary,
}

/// The operation a payload runs.
pub open spec fn payload_kind(p: SubmitPayload) -> SubmitOperation {
    match p {
        SubmitPayload::OriginCreate(_) => SubmitOperation::OriginCreate,
        SubmitPayload::Transfer(_) => SubmitOperation::Transfer,
        SubmitPayload::Drain(_) => SubmitOperation::Drain,
        SubmitPayload::Project(_) => SubmitOperation::Project,
        SubmitPayload::Reconstruct(_) => SubmitOperation::Reconstruct,
        SubmitPayload::Certify(_) => SubmitOperation::Certify,
    }
}

/// How a payload's operation, when it succeeds, changes the stored states `st` into
/// `after`: the state it writes is the operation's result, up to the clock readings it takes.
pub open spec fn payload_step(st: Seq<(Seq<char>, VectorView)>, p: SubmitPayload, after: Seq<(Seq<char>, VectorView)>) -> bool {
    match p {
        SubmitPayload::OriginCreate(q) => exists|u: VectorView| #![trigger sorted_insert(st, q.vector_id@, u)]
            u == origin_state(q.vector_id@, q.owner_pubkey@, q.space_id@, q.components@, q.seed@, q.nonce, q.difficulty,
                u.created_at_ms, u.certification.last_checked_at_ms)
            && after == sorted_insert(st, q.vector_id@, u),
        SubmitPayload::Transfer(q) => {
            &&& lookup(st, q.from_id@) matches Some(a0)
            &&& lookup(st, q.to_id@) matches Some(b0)
            &&& exists|a: VectorView, b: VectorView| #![trigger crate::checked::transfer_stored(st, q.from_id@, q.to_id@, a, b)]
                a == transferred(a0, debited(a0.components, q.amount@), a.certification.last_checked_at_ms)
                && b == transferred(b0, credited(b0.components, q.amount@), b.certification.last_checked_at_ms)
                && after == crate::checked::transfer_stored(st, q.from_id@, q.to_id@, a, b)
        },
        SubmitPayload::Drain(q) => {
            &&& lookup(st, q.vector_id@) matches Some(s0)
            &&& exists|u: VectorView| #![trigger sorted_insert(st, q.vector_id@, u)]
                u == drained_state(s0, q.basis_points, u.certification.last_checked_at_ms, u.updated_at_ms)
                && after == sorted_insert(st, q.vector_id@, u)
        },
        SubmitPayload::Project(q) => {
            &&& lookup(st, q.vector_id@) matches Some(s0)
            &&& exists|u: VectorView| #![trigger sorted_insert(st, q.vector_id@, u)]
                u == (VectorView {
                    certification: certification_of(u.components, s0.certification.threshold, true, true,
                        u.certification.last_checked_at_ms),
                    ..projected_view(s0, q.projected_components@, q.escrow_id@, u.updated_at_ms)
                })
                && after == sorted_insert(st, q.vector_id@, u)
        },
        SubmitPayload::Reconstruct(q) => {
            &&& lookup(st, q.vector_id@) matches Some(s0)
            &&& s0.projection matches Some(pr)
            &&& exists|u: VectorView, at: u64| #![trigger sorted_insert(st, q.vector_id@, u), reconstructed_view(s0, pr, q.outcome_tag@, q.gains@, q.losses@, at, u.updated_at_ms)]
                u == (VectorView {
                    certification: certification_of(u.components, s0.certification.threshold, true, true,
                        u.certification.last_checked_at_ms),
                    ..reconstructed_view(s0, pr, q.outcome_tag@, q.gains@, q.losses@, at, u.updated_at_ms)
                })
                && after == sorted_insert(st, q.vector_id@, u)
        },
        SubmitPayload::Certify(q) => {
            &&& lookup(st, q.vector_id@) matches Some(s0)
            &&& exists|u: VectorView| #![trigger sorted_insert(st, q.vector_id@, u)]
                u == certified_state(s0, u.certification.last_checked_at_ms, u.updated_at_ms)
                && after == sorted_insert(st, q.vector_id@, u)
        },
    }
}

/// The refusal a payload's operation meets, as its error text, where the stored states `st`
/// and the payload decide one.
pub open spec fn payload_refusal(st: Seq<(Seq<char>, VectorView)>, p: SubmitPayload) -> Option<Seq<char>> {
    match p {
        SubmitPayload::OriginCreate(q) => origin_refusal(q.components@, q.seed@, q.nonce, q.difficulty),
        SubmitPayload::Transfer(q) => if !components_fit(q.amount@) {
            Some(overflow_refusal_text())
        } else {
            transfer_refusal(st, q.from_id@, q.to_id@, q.amount@)
        },
        SubmitPayload::Drain(q) => drain_refusal(st, q.vector_id@, q.basis_points),
        SubmitPayload::Project(q) => if !components_fit(q.projected_components@) {
            Some(overflow_refusal_text())
        } else {
            project_refusal(st, q.vector_id@, q.projected_components@)
        },
        SubmitPayload::Reconstruct(q) => if !components_fit(q.gains@) || !components_fit(q.losses@) {
            Some(overflow_refusal_text())
        } else {
            reconstruct_refusal(st, q.vector_id@, q.gains@, q.losses@)
        },
        SubmitPayload::Certify(q) => certify_refusal(st, q.vector_id@),
    }
}

/// What a payload's operation that succeeds reports, and how it changes the stored states
/// `st` into `after`: the reported states are the ones it writes, each the operation's
/// result up to the clock readings it takes.
pub open spec fn payload_result(st: Seq<(Seq<char>, VectorView)>, p: SubmitPayload, o: OperationOutput,
    after: Seq<(Seq<char>, VectorView)>) -> bool
{
    match p {
        SubmitPayload::OriginCreate(q) => o matches OperationOutput::State(u)
            && u@ == origin_state(q.vector_id@, q.owner_pubkey@, q.space_id@, q.components@, q.seed@, q.nonce, q.difficulty,
                u@.created_at_ms, u@.certification.last_checked_at_ms)
            && after == sorted_insert(st, q.vector_id@, u@),
        SubmitPayload::Transfer(q) => {
            &&& o matches OperationOutput::Transfer(a, b)
            &&& lookup(st, q.from_id@) matches Some(a0)
            &&& lookup(st, q.to_id@) matches Some(b0)
            &&& a@ == transferred(a0, debited(a0.components, q.amount@), a@.certification.last_checked_at_ms)
            &&& b@ == transferred(b0, credited(b0.components, q.amount@), b@.certification.last_checked_at_ms)
            &&& after == crate::checked::transfer_stored(st, q.from_id@, q.to_id@, a@, b@)
        },
        SubmitPayload::Drain(q) => {
            &&& o matches OperationOutput::State(u)
            &&& lookup(st, q.vector_id@) matches Some(s0)
            &&& u@ == drained_state(s0, q.basis_points, u@.certification.last_checked_at_ms, u@.updated_at_ms)
            &&& after == sorted_insert(st, q.vector_id@, u@)
        },
        SubmitPayload::Project(q) => {
            &&& o matches OperationOutput::State(u)
            &&& lookup(st, q.vector_id@) matches Some(s0)
            &&& u@ == (VectorView {
                    certification: certification_of(u@.components, s0.certification.threshold, true, true,
                        u@.certification.last_checked_at_ms),
                    ..projected_view(s0, q.projected_components@, q.escrow_id@, u@.updated_at_ms)
                })
            &&& after == sorted_insert(st, q.vector_id@, u@)
        },
        SubmitPayload::Reconstruct(q) => {
            &&& o matches OperationOutput::State(u)
            &&& lookup(st, q.vector_id@) matches Some(s0)
            &&& s0.projection matches Some(pr)
            &&& u@.projection matches Some(up) && up.settlement_at_ms matches Some(at)
                && u@ == (VectorView {
                    certification: certification_of(u@.components, s0.certification.threshold, true, true,
                        u@.certification.last_checked_at_ms),
                    ..reconstructed_view(s0, pr, q.outcome_tag@, q.gains@, q.losses@, at, u@.updated_at_ms)
                })
            &&& after == sorted_insert(st, q.vector_id@, u@)
        },
        SubmitPayload::Certify(q) => {
            &&& o matches OperationOutput::State(u)
            &&& lookup(st, q.vector_id@) matches Some(s0)
            &&& u@ == certified_state(s0, u@.certification.last_checked_at_ms, u@.updated_at_ms)
            &&& after == sorted_insert(st, q.vector_id@, u@)
        },
    }
}

/// The stored states `st` and the payload let the operation's events be recorded.
pub open spec fn payload_ready(st: Seq<(Seq<char>, VectorView)>, p: SubmitPayload) -> bool {
    match p {
        SubmitPayload::OriginCreate(q) => origin_ready(q.vector_id@, q.owner_pubkey@, q.space_id@, q.components@),
        SubmitPayload::Transfer(q) => transfer_ready(st, q.from_id@, q.to_id@, q.amount@),
        SubmitPayload::Drain(q) => stored_ready(st, q.vector_id@),
        SubmitPayload::Project(q) => stored_ready(st, q.vector_id@),
        SubmitPayload::Reconstruct(q) => reconstruct_ready(st, q.vector_id@, q.gains@, q.losses@),
        SubmitPayload::Certify(q) => stored_ready(st, q.vector_id@),
    }
}

proof fn lemma_sorted_events_len(s: Seq<EventView>)
    ensures sorted_events(s).len() == s.len(),
    decreases s.len(),
{
    if s.len() > 0 {
        lemma_sorted_events_len(s.drop_last());
        lemma_insert_event_len(sorted_events(s.drop_last()), s.last());
    }
}

proof fn lemma_insert_event_len(s: Seq<EventView>, x: EventView)
    ensures insert_event(s, x).len() == s.len() + 1,
    decreases s.len(),
{
    if s.len() > 0 { lemma_insert_event_len(s.drop_first(), x); }
}

fn overflow_text() -> (r: String)
    ensures r@ == overflow_refusal_text(),
{
    let r = String::from_str("operation rejected: arithmetic overflow");
    proof {
        reveal_strlit("operation rejected: arithmetic overflow");
        reveal_strlit("operation rejected: ");
        reveal_strlit("arithmetic overflow");
        assert(r@ =~= overflow_refusal_text());
    }
    r
}

/// Runs the payload's operation on the engine; engine errors become their text.
fn run_payload(engine: &mut KernelEngine, payload: SubmitPayload) -> (r: Result<OperationOutput, String>)
    requires old(engine).wf(),
    ensures
        final(engine).wf(), final(engine).consensus == old(engine).consensus,
        r is Ok ==> payload_step(old(engine).store.state_entries(), payload, final(engine).store.state_entries()),
        r matches Ok(o) ==> payload_result(old(engine).store.state_entries(), payload, o, final(engine).store.state_entries()),
        payload_refusal(old(engine).store.state_entries(), payload) matches Some(m) ==>
            (r matches Err(t) && t@ == m && final(engine).store == old(engine).store),
        payload_refusal(old(engine).store.state_entries(), payload) is None
            && payload_ready(old(engine).store.state_entries(), payload)
            && log_has_room(old(engine).store.event_log()) ==> r is Ok,
        r is Ok ==> final(engine).store.event_log().len() >= old(engine).store.event_log().len(),
{
    match payload {
        SubmitPayload::OriginCreate(p) => {
            match checked_origin_create(engine, p.vector_id, p.owner_pubkey, p.space_id, p.components, p.seed, p.nonce, p.difficulty) {
                Ok(s) => Ok(OperationOutput::State(s)),
                Err(e) => Err(e.message()),
            }
        }
        SubmitPayload::Transfer(p) => {
            if !all_fit(&p.amount) {
                return Err(overflow_text());
            }
            match checked_transfer(engine, p.from_id.as_str(), p.to_id.as_str(), p.amount) {
                Ok((a, b)) => Ok(OperationOutput::Transfer(a, b)),
                Err(e) => Err(e.message()),
            }
        }
        SubmitPayload::Drain(p) => {
            match checked_drain(engine, p.vector_id.as_str(), p.basis_points) {
                Ok(s) => Ok(OperationOutput::State(s)),
                Err(e) => Err(e.message()),
            }
        }
        SubmitPayload::Project(p) => {
            if !all_fit(&p.projected_components) {
                return Err(overflow_text());
            }
            match checked_project(engine, p.vector_id.as_str(), p.projected_components, p.escrow_id) {
                Ok(s) => Ok(OperationOutput::State(s)),
                Err(e) => Err(e.message()),
            }
        }
        SubmitPayload::Reconstruct(p) => {
            if !all_fit(&p.gains) || !all_fit(&p.losses) {
                return Err(overflow_text());
            }
            let outcome = SettlementOutcome { outcome_tag: p.outcome_tag, gains: p.gains, losses: p.losses };
            match checked_reconstruct(engine, p.vector_id.as_str(), outcome) {
                Ok(s) => Ok(OperationOutput::State(s)),
                Err(e) => Err(e.message()),
            }
        }
        SubmitPayload::Certify(p) => {
            match checked_certify(engine, p.vector_id.as_str()) {
                Ok(s) => Ok(OperationOutput::State(s)),
                Err(e) => Err(e.message()),
            }
        }
    }
}

/// Runs one operation, then collects the events it added (in event order) and checks the
/// engine's replay. An operation that adds no event is reported as an error.
pub fn execute_and_collect(engine: &mut KernelEngine, payload: SubmitPayload) -> (r: Result<Collected, String>)
    requires old(engine).wf(),
    ensures
        final(engine).wf(), final(engine).consensus == old(engine).consensus,
        r matches Ok(c) ==> {
            &&& c.operation@ == payload_kind(payload).label_text()
            &&& views(c.records@) == sorted_events(fresh_events(sorted_events(old(engine).store.event_log()),
                sorted_events(final(engine).store.event_log())))
            &&& c.records@.len() > 0
            &&& c.event_count == sorted_events(final(engine).store.event_log()).len()
            &&& replay_spec(final(engine).store.event_log()) matches Ok((st, applied, clock))
            &&& summary_is(c.replay, st, applied, clock)
            &&& c.latest_clock == c.replay.latest_clock
            &&& payload_step(old(engine).store.state_entries(), payload, final(engine).store.state_entries())
            &&& payload_result(old(engine).store.state_entries(), payload, c.result, final(engine).store.state_entries())
        },
        payload_refusal(old(engine).store.state_entries(), payload) matches Some(m) ==>
            (r matches Err(t) && t@ == m && final(engine).store == old(engine).store),
        payload_refusal(old(engine).store.state_entries(), payload) is None
            && payload_ready(old(engine).store.state_entries(), payload)
            && log_has_room(old(engine).store.event_log()) ==>
            (r is Ok <==> (fresh_events(sorted_events(old(engine).store.event_log()),
                sorted_events(final(engine).store.event_log())).len() > 0
                && replay_check_passes(final(engine).store.event_log()))),
        payload_refusal(old(engine).store.state_entries(), payload) is None
            && payload_ready(old(engine).store.state_entries(), payload)
            && log_has_room(old(engine).store.event_log()) ==>
            payload_step(old(engine).store.state_entries(), payload, final(engine).store.state_entries()),
{
    let ghost kind = payload_kind(payload);
    let label: &'static str = match &payload {
        SubmitPayload::OriginCreate(_) => "origin_create",
        SubmitPayload::Transfer(_) => "transfer",
        SubmitPayload::Drain(_) => "drain",
        SubmitPayload::Project(_) => "project",
        SubmitPayload::Reconstruct(_) => "reconstruct",
        SubmitPayload::Certify(_) => "certify",
    };
    let before = match engine.query_events() {
        Ok(v) => v,
        Err(e) => { return Err(e.message()); }
    };
    let result = match run_payload(engine, payload) {
        Ok(o) => o,
        Err(t) => { return Err(t); }
    };
    let after = match engine.query_events() {
        Ok(v) => v,
        Err(e) => { return Err(e.message()); }
    };
    let records = collect_new_events(&before, &after);
    proof {
        lemma_sorted_events_len(fresh_events(views(before@), views(after@)));
    }
    if records.len() == 0 {
        return Err(concat2(label, " completed without emitting a canonical event"));
    }
    let replay = match engine_replay_summary(engine) {
        Ok(s) => s,
        Err(t) => { return Err(t); }
    };
    let event_count = after.len() as u64;
    let latest_clock = replay.latest_clock;
    Ok(Collected { operation: String::from_str(label), result, records, event_count, latest_clock, replay })
}

/// What a request that ran reports.
#[derive(Debug)]
pub struct SubmitReceipt {
    pub request_id: String,
    pub operation: String,
    pub collected: Collected,
}

/// A kernel engine with the request ids it has run and the last error it reported.
#[derive(Debug)]
pub struct KernelSession {
    pub engine: KernelEngine,
    pub last_error: Option<String>,
    pub seen_request_ids: Vec<String>,
}

impl KernelSession {
    /// A session over an empty engine.
    pub fn new() -> (r: Self)
        ensures
            r.engine.wf(),
            r.engine.store.event_log().len() == 0,
            r.last_error is None,
            r.seen_request_ids@.len() == 0,
    {
        KernelSession { engine: KernelEngine::new(), last_error: None, seen_request_ids: Vec::new() }
    }

    /// Records an error message.
    pub fn set_last_error(&mut self, message: String)
        ensures
            final(self).last_error == Some(message),
            final(self).engine == old(self).engine,
            final(self).seen_request_ids == old(self).seen_request_ids,
    {
        self.last_error = Some(message);
    }

    /// Forgets the last error.
    pub fn clear_last_error(&mut self)
        ensures
            final(self).last_error is None,
            final(self).engine == old(self).engine,
            final(self).seen_request_ids == old(self).seen_request_ids,
    {
        self.last_error = None;
    }

    /// Validates a request and runs its operation; once the operation has run, the request
    /// id is recorded and a receipt is returned.
    pub fn execute_submit_request(&mut self, request: SubmitEventRequest, parsed: Result<SubmitPayload, String>)
        -> (r: Result<SubmitReceipt, String>)
        requires old(self).engine.wf(),
        ensures
            final(self).engine.wf(),
            submit_validation(old(self).seen_request_ids@, request@, parse_status(parsed)) matches Err(m) ==> {
                &&& r matches Err(e) && e@ == m
                &&& final(self).engine == old(self).engine
                &&& final(self).seen_request_ids == old(self).seen_request_ids
                &&& final(self).last_error == old(self).last_error
            },
            submit_validation(old(self).seen_request_ids@, request@, parse_status(parsed)) is Ok ==> (parsed matches Ok(p) && {
                &&& payload_refusal(old(self).engine.store.state_entries(), p) matches Some(m) ==>
                    (r matches Err(e) && e@ == m && final(self).engine.store == old(self).engine.store)
                &&& payload_refusal(old(self).engine.store.state_entries(), p) is None
                    && payload_ready(old(self).engine.store.state_entries(), p)
                    && log_has_room(old(self).engine.store.event_log()) ==>
                    (r is Ok <==> (fresh_events(sorted_events(old(self).engine.store.event_log()),
                        sorted_events(final(self).engine.store.event_log())).len() > 0
                        && replay_check_passes(final(self).engine.store.event_log())))
                &&& payload_refusal(old(self).engine.store.state_entries(), p) is None
                    && payload_ready(old(self).engine.store.state_entries(), p)
                    && log_has_room(old(self).engine.store.event_log()) ==>
                    payload_step(old(self).engine.store.state_entries(), p, final(self).engine.store.state_entries())
            }),
            r is Err ==> final(self).seen_request_ids == old(self).seen_request_ids && final(self).last_error == old(self).last_error,
            r matches Ok(receipt) ==> {
                &&& submit_validation(old(self).seen_request_ids@, request@, parse_status(parsed)) is Ok
                &&& final(self).seen_request_ids@ == old(self).seen_request_ids@.push(request.request_id)
                &&& final(self).last_error is None
                &&& receipt.request_id@ == request.request_id@
                &&& receipt.operation@ == request.operation@
                &&& parsed matches Ok(p) && payload_result(old(self).engine.store.state_entries(), p, receipt.collected.result,
                    final(self).engine.store.state_entries())
                    && receipt.collected.operation@ == payload_kind(p).label_text()
            },
    {
        let status: Result<(), String> = match &parsed {
            Ok(_) => Ok(()),
            Err(e) => Err(e.clone()),
        };
        assert(status_view(status) == parse_status(parsed));
        let kind = validate_submit_request(&self.seen_request_ids, &request, &status)?;
        let payload = match parsed {
            Ok(p) => p,
            Err(e) => { return Err(e); }
        };
        let collected = match execute_and_collect(&mut self.engine, payload) {
            Ok(c) => c,
            Err(e) => { return Err(e); }
        };
        self.seen_request_ids.push(request.request_id.clone());
        self.last_error = None;
        Ok(SubmitReceipt { request_id: request.request_id, operation: request.operation, collected })
    }
}


/// Verifies a hex signature over payload bytes with a hex public key.
pub fn verify_payload_signature(public_key: &str, payload: &[u8], signature: &str) -> (r: Result<bool, String>)
    ensures
        match parsed_key(utf8(public_key@)) {
            Err(m) => r matches Err(e) && e@ == m,
            Ok(k) => match signature_check(k, payload@, utf8(signature@)) {
                Ok(b) => r == Ok::<bool, String>(b),
                Err(m) => r matches Err(e) && e@ == m,
            },
        },
{
    let key = verifying_key_from_hex(public_key)?;
    verify_event_signature(&key, payload, signature)
}


/// A request id runs at most once: once it is among the seen ids, a request with every
/// required field and a valid shape is refused as a duplicate, whatever its signature.
pub proof fn lemma_seen_request_refused(seen: Seq<String>, r: SubmitView, parsed: Result<(), Seq<char>>)
    requires
        trimmed(r.request_id).len() > 0,
        trimmed(r.actor_public_key).len() > 0,
        trimmed(r.signature).len() > 0,
        shape_of(r.operation, parsed) is Ok,
        seen_contains(seen, r.request_id),
    ensures
        submit_validation(seen, r, parsed) == Err::<SubmitOperation, Seq<char>>("duplicate request_id: "@ + r.request_id),
{
}

} // verus!
