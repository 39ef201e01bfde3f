use vstd::prelude::*;
use crate::encoding::{be_bytes, push_bytes, push_u128_be};
use crate::hash::{blake3_hex, hash_hex};
use crate::serialization::{bool_byte, ser_map, ser_str, utf8, write_bool, write_btreemap_str_str, write_str, write_u64};
use crate::state::{CertificationState, CertificationView, OriginState, OriginView, ProjectionState, ProjectionView, StateRoot, StateRootView, VectorStateV1, VectorStatus, VectorType, VectorView};

verus! {

pub open spec fn u128s_body(v: Seq<u128>) -> Seq<u8>
    decreases v.len(),
{
    if v.len() == 0 { Seq::empty() } else { u128s_body(v.drop_last()) + be_bytes(v.last() as nat, 16) }
}

/// A count-prefixed list of big-endian `u128`s.
pub open spec fn ser_u128s(v: Seq<u128>) -> Seq<u8> {
    be_bytes(v.len(), 8) + u128s_body(v)
}

pub open spec fn vector_type_tag(t: VectorType) -> Seq<char> {
    match t {
        VectorType::Standard => "STANDARD"@,
        VectorType::Origin => "ORIGIN"@,
        VectorType::Projected => "PROJECTED"@,
        VectorType::Escrow => "ESCROW"@,
        VectorType::Settlement => "SETTLEMENT"@,
        VectorType::Locked => "LOCKED"@,
    }
}

pub open spec fn vector_status_tag(s: VectorStatus) -> Seq<char> {
    match s {
        VectorStatus::Active => "ACTIVE"@,
        VectorStatus::Projected => "PROJECTED"@,
        VectorStatus::Escrowed => "ESCROWED"@,
        VectorStatus::Settled => "SETTLED"@,
        VectorStatus::Archived => "ARCHIVED"@,
    }
}

/// An optional string: a presence byte, then the string.
pub open spec fn opt_str_bytes(o: Option<Seq<char>>) -> Seq<u8> {
    match o { Some(s) => bool_byte(true) + ser_str(s), None => bool_byte(false) }
}

pub open spec fn cert_bytes(c: CertificationView) -> Seq<u8> {
    bool_byte(c.certified) + be_bytes(c.auth_ratio as nat, 8) + be_bytes(c.threshold as nat, 8)
        + be_bytes(c.last_checked_at_ms as nat, 8) + opt_str_bytes(c.reason)
}

pub open spec fn projection_bytes(p: ProjectionView) -> Seq<u8> {
    ser_str(p.escrow_id) + ser_u128s(p.projected_components) + ser_u128s(p.settled_components)
        + be_bytes(p.started_at_ms as nat, 8)
        + match p.settlement_at_ms { Some(t) => bool_byte(true) + be_bytes(t as nat, 8), None => bool_byte(false) }
        + opt_str_bytes(p.outcome_tag)
}

pub open spec fn origin_bytes(o: OriginView) -> Seq<u8> {
    ser_str(o.seed) + be_bytes(o.nonce as nat, 8) + be_bytes(o.difficulty as nat, 8) + ser_str(o.proof_hash)
}

/// The canonical bytes of a vector state, field by field.
pub open spec fn state_bytes(v: VectorView) -> Seq<u8> {
    ser_str(v.schema) + ser_str(v.vector_id) + ser_str(v.owner_pubkey) + ser_str(v.space_id)
        + ser_str(vector_type_tag(v.vector_type)) + ser_str(vector_status_tag(v.status))
        + ser_u128s(v.components) + ser_map(v.type_metadata) + cert_bytes(v.certification)
        + match v.projection { Some(p) => bool_byte(true) + projection_bytes(p), None => bool_byte(false) }
        + match v.origin { Some(o) => bool_byte(true) + origin_bytes(o), None => bool_byte(false) }
        + be_bytes(v.version as nat, 8) + be_bytes(v.created_at_ms as nat, 8) + be_bytes(v.updated_at_ms as nat, 8)
}

fn write_vec_u128(buf: &mut Vec<u8>, values: &Vec<u128>)
    ensures final(buf)@ == old(buf)@ + ser_u128s(values@),
{
    write_u64(buf, values.len() as u64);
    let ghost start = buf@;
    let mut i: usize = 0;
    while i < values.len()
        invariant i <= values.len(), buf@ == start + u128s_body(values@.take(i as int)),
        decreases values.len() - i,
    {
        push_u128_be(buf, values[i]);
        i += 1;
        assert(values@.take(i as int).drop_last() =~= values@.take(i - 1));
        assert(buf@ =~= start + u128s_body(values@.take(i as int)));
    }
    assert(values@.take(values.len() as int) =~= values@);
    assert(buf@ =~= old(buf)@ + ser_u128s(values@));
}

fn write_opt_str(buf: &mut Vec<u8>, o: &Option<String>)
    ensures final(buf)@ == old(buf)@ + opt_str_bytes(crate::state::opt_str_view(*o)),
{
    match o {
        Some(s) => {
            write_bool(buf, true);
            write_str(buf, s.as_str());
        }
        None => write_bool(buf, false),
    }
    assert(buf@ =~= old(buf)@ + opt_str_bytes(crate::state::opt_str_view(*o)));
}

fn write_certification_state(buf: &mut Vec<u8>, c: &CertificationState)
    ensures final(buf)@ == old(buf)@ + cert_bytes(c@),
{
    write_bool(buf, c.certified);
    write_u64(buf, c.auth_ratio as u64);
    write_u64(buf, c.threshold as u64);
    write_u64(buf, c.last_checked_at_ms);
    write_opt_str(buf, &c.reason);
    assert(buf@ =~= old(buf)@ + cert_bytes(c@));
}

fn write_projection_state(buf: &mut Vec<u8>, p: &ProjectionState)
    ensures final(buf)@ == old(buf)@ + projection_bytes(p@),
{
    write_str(buf, p.escrow_id.as_str());
    write_vec_u128(buf, &p.projected_components);
    write_vec_u128(buf, &p.settled_components);
    write_u64(buf, p.started_at_ms);
    match p.settlement_at_ms {
        Some(t) => {
            write_bool(buf, true);
            write_u64(buf, t);
        }
        None => write_bool(buf, false),
    }
    write_opt_str(buf, &p.outcome_tag);
    assert(buf@ =~= old(buf)@ + projection_bytes(p@));
}

fn write_origin_state(buf: &mut Vec<u8>, o: &OriginState)
    ensures final(buf)@ == old(buf)@ + origin_bytes(o@),
{
    write_str(buf, o.seed.as_str());
    write_u64(buf, o.nonce);
    write_u64(buf, o.difficulty as u64);
    write_str(buf, o.proof_hash.as_str());
    assert(buf@ =~= old(buf)@ + origin_bytes(o@));
}

fn vector_type_name(t: &VectorType) -> (r: &'static str)
    ensures r@ == vector_type_tag(*t),
{
    match t {
        VectorType::Standard => "STANDARD",
        VectorType::Origin => "ORIGIN",
        VectorType::Projected => "PROJECTED",
        VectorType::Escrow => "ESCROW",
        VectorType::Settlement => "SETTLEMENT",
        VectorType::Locked => "LOCKED",
    }
}

fn vector_status_name(s: &VectorStatus) -> (r: &'static str)
    ensures r@ == vector_status_tag(*s),
{
    match s {
        VectorStatus::Active => "ACTIVE",
        VectorStatus::Projected => "PROJECTED",
        VectorStatus::Escrowed => "ESCROWED",
        VectorStatus::Settled => "SETTLED",
        VectorStatus::Archived => "ARCHIVED",
    }
}

/// The canonical bytes of a vector state.
pub fn canonical_vector_state_bytes(state: &VectorStateV1) -> (r: Vec<u8>)
    ensures r@ == state_bytes(state@),
{
    let mut buf: Vec<u8> = Vec::new();
    write_str(&mut buf, state.schema.as_str());
    write_str(&mut buf, state.vector_id.as_str());
    write_str(&mut buf, state.owner_pubkey.as_str());
    write_str(&mut buf, state.space_id.as_str());
    write_str(&mut buf, vector_type_name(&state.vector_type));
    write_str(&mut buf, vector_status_name(&state.status));
    write_vec_u128(&mut buf, &state.components);
    write_btreemap_str_str(&mut buf, &state.type_metadata);
    write_certification_state(&mut buf, &state.certification);
    match &state.projection {
        Some(p) => {
            write_bool(&mut buf, true);
            write_projection_state(&mut buf, p);
        }
        None => write_bool(&mut buf, false),
    }
    match &state.origin {
        Some(o) => {
            write_bool(&mut buf, true);
            write_origin_state(&mut buf, o);
        }
        None => write_bool(&mut buf, false),
    }
    write_u64(&mut buf, state.version);
    write_u64(&mut buf, state.created_at_ms);
    write_u64(&mut buf, state.updated_at_ms);
    assert(buf@ =~= state_bytes(state@));
    buf
}

/// Order of states in a state root: by id, then version, then update time.
pub open spec fn state_order(a: VectorView, b: VectorView) -> int {
    if crate::strmap::key_order(a.vector_id, b.vector_id) != 0 {
        crate::strmap::key_order(a.vector_id, b.vector_id)
    } else if a.version < b.version {
        -1
    } else if a.version > b.version {
        1
    } else if a.updated_at_ms < b.updated_at_ms {
        -1
    } else if a.updated_at_ms > b.updated_at_ms {
        1
    } else {
        0
    }
}

/// Inserts a state after every state that does not order after it.
pub open spec fn insert_state(s: Seq<VectorView>, x: VectorView) -> Seq<VectorView>
    decreases s.len(),
{
    if s.len() == 0 {
        seq![x]
    } else if state_order(x, s[0]) < 0 {
        seq![x] + s
    } else {
        seq![s[0]] + insert_state(s.drop_first(), x)
    }
}

/// The states in state-root order; states with equal keys keep their input order.
pub open spec fn ordered_states(s: Seq<VectorView>) -> Seq<VectorView>
    decreases s.len(),
{
    if s.len() == 0 { Seq::empty() } else { insert_state(ordered_states(s.drop_last()), s.last()) }
}

pub open spec fn states_body(s: Seq<VectorView>) -> Seq<u8>
    decreases s.len(),
{
    if s.len() == 0 {
        Seq::empty()
    } else {
        states_body(s.drop_last()) + be_bytes(state_bytes(s.last()).len(), 8) + state_bytes(s.last())
    }
}

/// The bytes a state root over a state set is taken over.
pub open spec fn state_set_material(ordered: Seq<VectorView>, logical_clock: u64) -> Seq<u8> {
    utf8("v-kernelx/state-root-v1"@) + be_bytes(ordered.len(), 8) + be_bytes(logical_clock as nat, 8) + states_body(ordered)
}

pub open spec fn vector_views(v: Seq<VectorStateV1>) -> Seq<VectorView> {
    v.map_values(|s: VectorStateV1| s@)
}

/// The state root of a state set: a hash over the states in state-root order.
pub open spec fn state_set_root(states: Seq<VectorView>, logical_clock: u64) -> StateRootView {
    let ordered = ordered_states(states);
    StateRootView {
        root_hash: hash_hex(state_set_material(ordered, logical_clock)),
        event_count: ordered.len() as u64,
        logical_clock,
    }
}

proof fn lemma_insert_state_len(s: Seq<VectorView>, x: VectorView)
    ensures insert_state(s, x).len() == s.len() + 1,
    decreases s.len(),
{
    if s.len() > 0 && state_order(x, s[0]) >= 0 { lemma_insert_state_len(s.drop_first(), x); }
}

proof fn lemma_ordered_len(s: Seq<VectorView>)
    ensures ordered_states(s).len() == s.len(),
    decreases s.len(),
{
    if s.len() > 0 {
        lemma_ordered_len(s.drop_last());
        lemma_insert_state_len(ordered_states(s.drop_last()), s.last());
    }
}

fn compare_states(a: &VectorStateV1, b: &VectorStateV1) -> (r: crate::text::Order)
    ensures r == crate::text::order_of(state_order(a@, b@)),
{
    let k = crate::strmap::compare_keys(&a.vector_id, &b.vector_id);
    proof { crate::strmap::lemma_key_order_props(a.vector_id@, b.vector_id@, b.vector_id@); }
    if k != crate::text::Order::Equal {
        k
    } else if a.version < b.version {
        crate::text::Order::Less
    } else if a.version > b.version {
        crate::text::Order::Greater
    } else if a.updated_at_ms < b.updated_at_ms {
        crate::text::Order::Less
    } else if a.updated_at_ms > b.updated_at_ms {
        crate::text::Order::Greater
    } else {
        crate::text::Order::Equal
    }
}

/// The states in state-root order.
pub fn order_states(states: &[VectorStateV1]) -> (r: Vec<VectorStateV1>)
    ensures vector_views(r@) == ordered_states(vector_views(states@)),
{
    let ghost vals = vector_views(states@);
    let mut out: Vec<VectorStateV1> = Vec::new();
    let mut k: usize = 0;
    while k < states.len()
        invariant
            k <= states.len(), vals == vector_views(states@),
            vector_views(out@) == ordered_states(vals.take(k as int)),
        decreases states.len() - k,
    {
        let x = states[k].duplicate();
        assert(x@ == vals[k as int]);
        let ghost before = vector_views(out@);
        let mut p: usize = 0;
        assert(before.skip(0) =~= before);
        while p < out.len() && compare_states(&x, &out[p]) != crate::text::Order::Less
            invariant
                p <= out.len(), before == vector_views(out@),
                insert_state(before, x@) == before.take(p as int) + insert_state(before.skip(p as int), x@),
            decreases out.len() - p,
        {
            proof {
                let t = before.skip(p as int);
                assert(t[0] == out@[p as int]@);
                assert(t.drop_first() =~= before.skip(p + 1));
                assert(before.take(p + 1) =~= before.take(p as int) + seq![t[0]]);
            }
            p += 1;
        }
        proof {
            let t = before.skip(p as int);
            if p < out.len() { assert(t[0] == out@[p as int]@); }
        }
        out.insert(p, x);
        proof {
            assert(vals.take(k + 1).drop_last() =~= vals.take(k as int));
            assert(vector_views(out@) =~= before.take(p as int) + seq![x@] + before.skip(p as int));
        }
        k += 1;
    }
    assert(vals.take(vals.len() as int) =~= vals);
    out
}

/// Deterministically computes a state root from a state set, ordered by id first.
#[verifier::spinoff_prover]
pub fn compute_state_root(states: &[VectorStateV1], logical_clock: u64) -> (r: StateRoot)
    ensures
        r@ == state_set_root(vector_views(states@), logical_clock),
        r.event_count == states@.len(),
        r.logical_clock == logical_clock,
        r.root_hash@.len() == 64,
        crate::encoding::is_lower_hex(r.root_hash@),
{
    let ordered = order_states(states);
    let ghost ov = vector_views(ordered@);
    proof { lemma_ordered_len(vector_views(states@)); }
    let mut bytes: Vec<u8> = Vec::new();
    push_bytes(&mut bytes, "v-kernelx/state-root-v1".as_bytes());
    write_u64(&mut bytes, ordered.len() as u64);
    write_u64(&mut bytes, logical_clock);
    let ghost start = bytes@;
    let mut i: usize = 0;
    while i < ordered.len()
        invariant i <= ordered.len(), ov == vector_views(ordered@), bytes@ == start + states_body(ov.take(i as int)),
        decreases ordered.len() - i,
    {
        let canonical = canonical_vector_state_bytes(&ordered[i]);
        write_u64(&mut bytes, canonical.len() as u64);
        push_bytes(&mut bytes, canonical.as_slice());
        i += 1;
        assert(ov.take(i as int).drop_last() =~= ov.take(i - 1));
        assert(bytes@ =~= start + states_body(ov.take(i as int)));
    }
    assert(ov.take(ov.len() as int) =~= ov);
    assert(bytes@ =~= state_set_material(ov, logical_clock));
    let root_hash = blake3_hex(bytes.as_slice());
    StateRoot { root_hash, event_count: ordered.len() as u64, logical_clock }
}

/// The bytes a state root over already-canonical state bytes is taken over.
pub open spec fn canonical_bytes_material(state_bytes: Seq<u8>, event_count: u64, logical_clock: u64) -> Seq<u8> {
    utf8("v-kernelx/state-root-v1"@) + be_bytes(event_count as nat, 8) + be_bytes(logical_clock as nat, 8)
        + be_bytes(state_bytes.len(), 8) + state_bytes
}

/// A state root over already-canonical state bytes.
pub fn compute_state_root_from_canonical_bytes(canonical_state_bytes: &[u8], event_count: u64, logical_clock: u64) -> (r: StateRoot)
    ensures
        r@ == (StateRootView {
            root_hash: hash_hex(canonical_bytes_material(canonical_state_bytes@, event_count, logical_clock)),
            event_count,
            logical_clock,
        }),
{
    let mut bytes: Vec<u8> = Vec::new();
    push_bytes(&mut bytes, "v-kernelx/state-root-v1".as_bytes());
    write_u64(&mut bytes, event_count);
    write_u64(&mut bytes, logical_clock);
    write_u64(&mut bytes, canonical_state_bytes.len() as u64);
    push_bytes(&mut bytes, canonical_state_bytes);
    assert(bytes@ =~= canonical_bytes_material(canonical_state_bytes@, event_count, logical_clock));
    let root_hash = blake3_hex(bytes.as_slice());
    StateRoot { root_hash, event_count, logical_clock }
}

} // verus!
