use vstd::prelude::*;
use crate::engine::{
    append_allowed, committed, component_limit_message, components_fit, entity_event_count, event_state_of, greatest,
    greatest_upto, latest_parents, missing_parent, reinserted, transition_event,
};
use crate::error::{invalid_state, KernelXError};
use crate::event::{event_id_text, EventView, OperationTag};
use crate::hash::sealed_event;
use crate::ratio::{is_scale, ratio_bits, rounded, scale_floor, two_pow};
use crate::serialization::{event_bytes_bind_payload_hash, payload_bytes_ignore_hashes_and_signature};
use crate::state::{canonical_state_problem, VectorView, STATE_SCHEMA_V1};
use crate::storage::first_with_hash;
use crate::text::{is_whitespace, leading_ws, trailing_ws, trimmed};
use crate::validation::{auth_ratio_bits_valid, event_check};

verus! {

/// A state the kernel can store and record: the canonical schema, at least one component,
/// and a vector id, space id and owner key that are not blank.
pub open spec fn state_valid(v: VectorView) -> bool {
    &&& v.schema == STATE_SCHEMA_V1@
    &&& v.components.len() > 0
    &&& trimmed(v.vector_id).len() > 0
    &&& trimmed(v.space_id).len() > 0
    &&& trimmed(v.owner_pubkey).len() > 0
}

/// A valid state whose components all fit an event's 64-bit components.
pub open spec fn event_ready(v: VectorView) -> bool {
    state_valid(v) && components_fit(v.components)
}

/// The inputs of an origin creation make a valid state: at least one component, and a
/// vector id, owner key and space id that are not blank.
pub open spec fn origin_inputs_valid(vector_id: Seq<char>, owner: Seq<char>, space: Seq<char>, components: Seq<u128>) -> bool {
    &&& components.len() > 0
    &&& trimmed(vector_id).len() > 0
    &&& trimmed(owner).len() > 0
    &&& trimmed(space).len() > 0
}

/// The event log has room for the events of one more operation.
pub open spec fn log_has_room(es: Seq<EventView>) -> bool {
    es.len() + 2 < usize::MAX
}

pub proof fn lemma_trimmed_len(s: Seq<char>)
    ensures trimmed(s).len() <= s.len(),
{
    lemma_leading_le(s);
    let a = s.skip(leading_ws(s) as int);
    lemma_trailing_le(a);
}

proof fn lemma_leading_le(s: Seq<char>)
    ensures leading_ws(s) <= s.len(),
    decreases s.len(),
{
    if s.len() > 0 && is_whitespace(s[0]) { lemma_leading_le(s.drop_first()); }
}

proof fn lemma_trailing_le(s: Seq<char>)
    ensures trailing_ws(s) <= s.len(),
    decreases s.len(),
{
    if s.len() > 0 && is_whitespace(s.last()) { lemma_trailing_le(s.drop_last()); }
}

proof fn lemma_trailing_lt(s: Seq<char>)
    requires s.len() > 0, !is_whitespace(s[0]),
    ensures trailing_ws(s) < s.len(),
    decreases s.len(),
{
    if s.len() > 1 && is_whitespace(s.last()) {
        assert(s.drop_last()[0] == s[0]);
        lemma_trailing_lt(s.drop_last());
    }
}

/// A text that starts with a character other than white space is not blank.
pub proof fn lemma_trimmed_nonblank(s: Seq<char>)
    requires s.len() > 0, !is_whitespace(s[0]),
    ensures trimmed(s).len() > 0,
{
    assert(leading_ws(s) == 0);
    assert(s.skip(0) =~= s);
    lemma_trailing_lt(s);
}

/// A valid state passes structural validation.
pub proof fn lemma_state_valid_no_problem(v: VectorView)
    requires state_valid(v),
    ensures canonical_state_problem(v) is None,
{
    lemma_trimmed_len(v.vector_id);
    lemma_trimmed_len(v.space_id);
    lemma_trimmed_len(v.owner_pubkey);
}

proof fn lemma_count_le(es: Seq<EventView>, entity: Seq<char>, region: Seq<char>, n: nat)
    ensures entity_event_count(es, entity, region, n) <= n,
    decreases n,
{
    if n > 0 { lemma_count_le(es, entity, region, (n - 1) as nat); }
}

proof fn lemma_greatest_upto_in(es: Seq<EventView>, entity: Option<Seq<char>>, n: nat)
    requires n <= es.len(),
    ensures greatest_upto(es, entity, n) matches Some(e) ==> exists|i: int| 0 <= i < n && es[i] == e,
    decreases n,
{
    if n > 0 {
        lemma_greatest_upto_in(es, entity, (n - 1) as nat);
        if greatest_upto(es, entity, n) is Some && greatest_upto(es, entity, n) != greatest_upto(es, entity, (n - 1) as nat) {
            assert(greatest_upto(es, entity, n) == Some(es[n - 1]));
        }
    }
}

proof fn lemma_first_with_hash_found(es: Seq<EventView>, i: int)
    requires 0 <= i < es.len(),
    ensures first_with_hash(es, es[i].event_hash) is Some,
    decreases es.len(),
{
    if i > 0 && es[0].event_hash != es[i].event_hash {
        assert(es.drop_first()[i - 1] == es[i]);
        lemma_first_with_hash_found(es.drop_first(), i - 1);
    }
}

/// The parents a new event of an entity names are all in the log.
proof fn lemma_latest_parents_present(es: Seq<EventView>, e: EventView)
    requires e.parent_hashes == latest_parents(es, e.entity_id),
    ensures missing_parent(es, e) is None,
{
    lemma_greatest_upto_in(es, Some(e.entity_id), es.len());
    match greatest(es, Some(e.entity_id)) {
        Some(g) => {
            let i = choose|i: int| 0 <= i < es.len() && es[i] == g;
            lemma_first_with_hash_found(es, i);
            reveal_with_fuel(crate::checks::first_some, 2);
        },
        None => {},
    }
}

proof fn lemma_two_pow_mono(a: nat, b: nat)
    requires a <= b,
    ensures two_pow(a) <= two_pow(b),
    decreases b,
{
    if a < b { lemma_two_pow_mono(a, (b - 1) as nat); }
}

proof fn lemma_scale_exists(n: nat, k: nat)
    requires n >= 1, n * two_pow(k) < 2 * scale_floor(),
    ensures exists|j: nat| is_scale(n, j),
    decreases 2 * scale_floor() - n * two_pow(k),
{
    if n * two_pow(k) < scale_floor() {
        assert(two_pow(k + 1) == 2 * two_pow(k));
        assert(n * two_pow(k + 1) == 2 * (n * two_pow(k))) by (nonlinear_arith)
            requires two_pow(k + 1) == 2 * two_pow(k);
        lemma_two_pow_pos(k);
        assert(n * two_pow(k) >= 1) by (nonlinear_arith) requires n >= 1, two_pow(k) >= 1 { }
        lemma_scale_exists(n, k + 1);
    } else {
        assert(is_scale(n, k));
    }
}

proof fn lemma_two_pow_pos(k: nat)
    ensures two_pow(k) >= 1,
    decreases k,
{
    if k > 0 { lemma_two_pow_pos((k - 1) as nat); }
}

/// A ratio on the `0..=1000` scale has the bits of a binary64 in `[0, 1]`.
pub proof fn lemma_ratio_bits_valid(n: u16)
    requires n <= 1000,
    ensures auth_ratio_bits_valid(ratio_bits(n)),
{
    if n > 0 {
        assert(two_pow(0) == 1);
        lemma_scale_exists(n as nat, 0);
        let k = choose|k: nat| is_scale(n as nat, k);
        assert(two_pow(51) == 2251799813685248 && two_pow(52) == 4503599627370496 && two_pow(63) == 9223372036854775808)
            by { reveal_with_fuel(two_pow, 64); }
        let x = (n as nat) * two_pow(k);
        assert(scale_floor() <= x < 2 * scale_floor());
        if k <= 51 {
            lemma_two_pow_mono(k, 51);
            assert(x <= 1000 * two_pow(51)) by (nonlinear_arith)
                requires x == (n as nat) * two_pow(k), n <= 1000, two_pow(k) <= two_pow(51);
        }
        if k >= 63 {
            lemma_two_pow_mono(63, k);
            assert(x >= two_pow(63)) by (nonlinear_arith)
                requires x == (n as nat) * two_pow(k), n >= 1, two_pow(k) >= two_pow(63);
        }
        assert(52 <= k <= 62);
        let q = x / 1000;
        assert(4503599627370496 <= q < 9007199254740992) by (nonlinear_arith)
            requires 4503599627370496000 <= x < 9007199254740992000, q == x / 1000;
        let m = rounded(n as nat, k);
        assert(q <= m <= q + 1);
        if k == 52 {
            assert(n >= 1000) by (nonlinear_arith)
                requires x == (n as nat) * 4503599627370496, x >= 4503599627370496000;
            assert(x == 4503599627370496000);
            assert(m == 4503599627370496);
        }
    }
}

/// The event of an accepted transition is built, passes validation and names only parents
/// that are in the log.
pub proof fn lemma_transition_accepted(es: Seq<EventView>, before: Option<VectorView>, after: VectorView, op: OperationTag,
    clock: u64, ts: u64)
    requires
        es.len() < usize::MAX,
        event_ready(after),
        after.certification.auth_ratio <= 1000,
        before matches Some(b) ==> components_fit(b.components) && b.components.len() == after.components.len(),
        !(op is Other),
        op is OriginCreate ==> after.type_metadata.len() == 0,
    ensures
        transition_event(es, before, after, op, clock, ts, latest_parents(es, after.vector_id)) matches Ok(e)
            && append_allowed(es, e),
{
    let parents = latest_parents(es, after.vector_id);
    let vb = match before {
        Some(s) => event_state_of(s),
        None => Some(crate::event::VectorStateView {
            components: Seq::new(after.components.len(), |i: int| 0u64),
            owner_public_key: after.owner_pubkey,
            type_tag: crate::engine::type_debug_name(after.vector_type),
            metadata: Seq::empty(),
        }),
    };
    lemma_count_le(es, after.vector_id, after.space_id, es.len());
    let sequence = entity_event_count(es, after.vector_id, after.space_id, es.len()) + 1;
    let e0 = EventView {
        event_id: event_id_text(after.vector_id, after.space_id, op, clock, sequence as u64),
        parent_hashes: parents,
        region_id: after.space_id,
        entity_id: after.vector_id,
        operation: op,
        vector_before: vb->0,
        vector_after: event_state_of(after)->0,
        auth_ratio_bits: ratio_bits(after.certification.auth_ratio),
        certified: after.certification.certified,
        actor_public_key: after.owner_pubkey,
        logical_clock: clock,
        timestamp: ts,
        payload_hash: Seq::empty(),
        event_hash: Seq::empty(),
        signature: Seq::empty(),
    };
    assert(transition_event(es, before, after, op, clock, ts, parents) == Ok::<EventView, Seq<char>>(sealed_event(e0)));
    let e = sealed_event(e0);
    let wp = EventView { payload_hash: crate::hash::hash_hex(crate::serialization::payload_bytes(e0)), ..e0 };
    payload_bytes_ignore_hashes_and_signature(e0, wp.payload_hash, e0.event_hash, e0.signature);
    assert(wp == EventView { payload_hash: wp.payload_hash, event_hash: e0.event_hash, signature: e0.signature, ..e0 });
    payload_bytes_ignore_hashes_and_signature(e0, wp.payload_hash, e.event_hash, e0.signature);
    assert(e == EventView { payload_hash: wp.payload_hash, event_hash: e.event_hash, signature: e0.signature, ..e0 });
    event_bytes_bind_payload_hash(wp, e.event_hash, wp.signature);
    assert(e == EventView { event_hash: e.event_hash, signature: wp.signature, ..wp });
    // The event id starts with a letter, so it is not blank.
    reveal_strlit("evt:");
    assert(e.event_id[0] == 'e');
    lemma_trimmed_nonblank(e.event_id);
    lemma_ratio_bits_valid(after.certification.auth_ratio);
    assert(e.vector_before.components.len() == e.vector_after.components.len());
    if op is OriginCreate {
        assert(reinserted(after.type_metadata, 0) =~= Seq::<(Seq<char>, Seq<char>)>::empty());
    }
    assert(!crate::region::is_region_create(e));
    assert(event_check(e) is Ok);
    lemma_latest_parents_present(es, e);
}

/// An operation whose transition is accepted commits with `Ok`.
pub proof fn lemma_commit_ok(old_log: Seq<EventView>, new_log: Seq<EventView>, before: Option<VectorView>, after: VectorView,
    op: OperationTag, clock: u64, ts: u64, r: Result<(), KernelXError>)
    requires
        committed(old_log, new_log, before, after, op, clock, ts, r),
        old_log.len() < usize::MAX,
        event_ready(after),
        after.certification.auth_ratio <= 1000,
        before matches Some(b) ==> components_fit(b.components) && b.components.len() == after.components.len(),
        !(op is Other),
        op is OriginCreate ==> after.type_metadata.len() == 0,
    ensures
        r is Ok,
        new_log.len() == old_log.len() + 1,
{
    reveal(committed);
    lemma_count_le(old_log, after.vector_id, after.space_id, old_log.len());
    lemma_transition_accepted(old_log, before, after, op, clock, ts);
}

/// An operation whose new components do not all fit 64 bits fails to commit with the
/// component limit error.
pub proof fn lemma_commit_limit(old_log: Seq<EventView>, new_log: Seq<EventView>, before: Option<VectorView>, after: VectorView,
    op: OperationTag, clock: u64, ts: u64, r: Result<(), KernelXError>)
    requires
        committed(old_log, new_log, before, after, op, clock, ts, r),
        old_log.len() < usize::MAX,
        !components_fit(after.components) || (before matches Some(b) && !components_fit(b.components)),
    ensures
        invalid_state(r, component_limit_message()),
{
    reveal(committed);
    lemma_count_le(old_log, after.vector_id, after.space_id, old_log.len());
}

} // verus!
