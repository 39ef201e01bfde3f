use vstd::prelude::*;
use vstd::string::StringExecFns;
use crate::drain::{apply_drain, drain_fee, effective_drain_bps};
use crate::acceptance::{event_ready, log_has_room, origin_inputs_valid};
use crate::engine::{certified_state, components_fit, drained, drained_state, origin_state, transferred, KernelEngine};
use crate::certification::certification_of;
use crate::projection::{exceeds_balance, projected_view};
use crate::reconstruction::reconstructed_view;
use crate::error::{error_text, KernelXError};
use crate::origin::origin_valid;
use crate::reconstruction::{loss_exceeds, restored_components, sat_add, settled_gross, settled_values, SettlementOutcome};
use crate::state::{lemma_sum_nonneg_prefix, sum_u128, VectorStateV1, VectorView};
use crate::storage::{opt_view, EventStore, StateStore};
use crate::strmap::{lookup, sorted_insert};
use crate::transfer::{credited, debited};

verus! {

/// Whether every value fits in 64 bits.
pub fn all_fit(v: &Vec<u128>) -> (r: bool)
    ensures r == components_fit(v@),
{
    let mut i: usize = 0;
    while i < v.len()
        invariant i <= v.len(), forall|j: int| 0 <= j < i ==> v@[j] <= u64::MAX,
        decreases v.len() - i,
    {
        if v[i] > 18446744073709551615u128 {
            return false;
        }
        i += 1;
    }
    true
}

/// The sum of the values, when it fits in a `u128`.
pub fn checked_sum(v: &Vec<u128>) -> (r: Option<u128>)
    ensures
        r matches Some(n) ==> n == sum_u128(v@),
        r is None ==> sum_u128(v@) > u128::MAX,
{
    let mut acc: u128 = 0;
    let mut i: usize = 0;
    assert(v@.take(0) =~= Seq::<u128>::empty());
    while i < v.len()
        invariant i <= v.len(), acc == sum_u128(v@.take(i as int)),
        decreases v.len() - i,
    {
        assert(v@.take(i + 1).drop_last() =~= v@.take(i as int));
        if acc > u128::MAX - v[i] {
            proof { lemma_sum_nonneg_prefix(v@, i + 1); }
            return None;
        }
        acc = acc + v[i];
        i += 1;
    }
    assert(v@.take(v.len() as int) =~= v@);
    Some(acc)
}

/// The receiver's components after a transfer.
pub fn credited_values(balance: &Vec<u128>, amount: &Vec<u128>) -> (r: Vec<u128>)
    requires balance.len() == amount.len(),
    ensures r@ == credited(balance@, amount@),
{
    let mut out: Vec<u128> = Vec::new();
    let mut i: usize = 0;
    while i < balance.len()
        invariant i <= balance.len(), balance.len() == amount.len(),
            out@.len() == i, forall|j: int| 0 <= j < i ==> out@[j] == sat_add(balance@[j], amount@[j]),
        decreases balance.len() - i,
    {
        let v = if balance[i] > u128::MAX - amount[i] { u128::MAX } else { balance[i] + amount[i] };
        out.push(v);
        i += 1;
    }
    assert(out@ =~= credited(balance@, amount@));
    out
}

/// Whether the components a settlement would restore sum within a `u128` (true when
/// the settlement is refused before any sum).
pub fn settlement_fits(s: &VectorStateV1, gains: &Vec<u128>, losses: &Vec<u128>) -> (r: bool)
    ensures
        r == (s@.projection matches Some(p) ==> (
            p.projected_components.len() == gains@.len() && p.projected_components.len() == losses@.len()
            && p.projected_components.len() == s.components@.len()
            && !loss_exceeds(p.projected_components, gains@, losses@)
            ==> sum_u128(restored_components(s.components@,
                settled_values(p.projected_components, gains@, losses@))) <= u128::MAX)),
{
    match &s.projection {
        None => true,
        Some(p) => {
            let pc = &p.projected_components;
            assert(s@.projection == Some(p@) && p@.projected_components == pc@);
            if pc.len() != gains.len() || pc.len() != losses.len() || pc.len() != s.components.len() {
                return true;
            }
            let mut restored: Vec<u128> = Vec::new();
            let mut i: usize = 0;
            while i < pc.len()
                invariant
                    i <= pc.len(), pc.len() == gains.len(), pc.len() == losses.len(), pc.len() == s.components.len(),
                    s@.projection == Some(p@), p@.projected_components == pc@,
                    restored@.len() == i,
                    forall|j: int| 0 <= j < i ==> losses@[j] <= #[trigger] settled_gross(pc@, gains@, j),
                    forall|j: int| 0 <= j < i ==> #[trigger] restored@[j] == sat_add(s.components@[j],
                        (settled_gross(pc@, gains@, j) - losses@[j]) as u128),
                decreases pc.len() - i,
            {
                let gross: u128 = if pc[i] > u128::MAX - gains[i] { u128::MAX } else { pc[i] + gains[i] };
                assert(gross == settled_gross(pc@, gains@, i as int));
                if losses[i] > gross {
                    assert(loss_exceeds(pc@, gains@, losses@));
                    return true;
                }
                let settled = gross - losses[i];
                let v = if s.components[i] > u128::MAX - settled { u128::MAX } else { s.components[i] + settled };
                restored.push(v);
                i += 1;
            }
            proof {
                assert(!loss_exceeds(pc@, gains@, losses@));
                assert(restored@ =~= restored_components(s.components@, settled_values(pc@, gains@, losses@)));
            }
            checked_sum(&restored).is_some()
        }
    }
}

/// Whether the components left after a drain all fit in 64 bits (true for a refused rate).
pub fn drain_fits(s: &VectorStateV1, basis_points: u16) -> (r: bool)
    ensures r == (basis_points <= 10000 ==> components_fit(drained(s.components@, basis_points,
        s.certification.auth_ratio, s.certification.threshold))),
{
    let (fees, remaining) = match apply_drain(s.components.as_slice(), basis_points, s.certification.auth_ratio,
        s.certification.threshold) {
        Ok(x) => x,
        Err(_) => { return true; }
    };
    let ghost d = drained(s.components@, basis_points, s.certification.auth_ratio, s.certification.threshold);
    proof {
        assert forall|i: int| 0 <= i < remaining@.len() implies remaining@[i] == d[i] by {
            assert(fees@[i] == drain_fee(s.components@[i],
                effective_drain_bps(basis_points, s.certification.auth_ratio, s.certification.threshold)));
        }
    }
    let mut i: usize = 0;
    while i < remaining.len()
        invariant i <= remaining.len(), remaining@.len() == d.len(), basis_points <= 10000,
            d == drained(s.components@, basis_points, s.certification.auth_ratio, s.certification.threshold),
            forall|j: int| 0 <= j < remaining@.len() ==> remaining@[j] == d[j],
            forall|j: int| 0 <= j < i ==> d[j] <= u64::MAX,
        decreases remaining.len() - i,
    {
        if remaining[i] > 18446744073709551615u128 {
            assert(d[i as int] > u64::MAX);
            return false;
        }
        i += 1;
    }
    true
}

/// The stored state of a vector, if any.
pub fn stored_state(engine: &KernelEngine, vector_id: &str) -> (r: Option<VectorStateV1>)
    requires engine.wf(),
    ensures
        opt_view(r) == lookup(engine.store.state_entries(), vector_id@),
        r matches Some(s) ==> s.type_metadata.wf() && s.vector_id@ == vector_id@,
{
    match engine.store.get_state(vector_id) {
        Ok(s) => s,
        Err(_) => None,
    }
}

pub fn overflow_error() -> (e: KernelXError)
    ensures e matches KernelXError::Rejected(m) && m@ == "arithmetic overflow"@,
{
    KernelXError::Rejected(String::from_str("arithmetic overflow"))
}


/// The sum of the components fits in a `u128`.
pub open spec fn sum_fits(c: Seq<u128>) -> bool {
    sum_u128(c) <= u128::MAX
}

/// Whether a transfer's sums overflow: the sender's components, or the receiver's after the credit.
pub open spec fn transfer_overflows(entries: Seq<(Seq<char>, VectorView)>, from_id: Seq<char>, to_id: Seq<char>, amount: Seq<u128>) -> bool {
    match lookup(entries, from_id) {
        None => false,
        Some(f) => !sum_fits(f.components) || match lookup(entries, to_id) {
            None => false,
            Some(t) => f.components.len() == t.components.len() && amount.len() == f.components.len()
                && !sum_fits(credited(t.components, amount)),
        },
    }
}

/// The stored states after a transfer that reports `a` and `b`: both sides written, or,
/// for a transfer from a vector to itself, the states as they were.
pub open spec fn transfer_stored(st: Seq<(Seq<char>, VectorView)>, from_id: Seq<char>, to_id: Seq<char>, a: VectorView,
    b: VectorView) -> Seq<(Seq<char>, VectorView)>
{
    if from_id == to_id { st } else { sorted_insert(sorted_insert(st, from_id, a), to_id, b) }
}

/// Whether a stored state's version or components' sum would overflow on a further change.
pub open spec fn state_overflows(entries: Seq<(Seq<char>, VectorView)>, vector_id: Seq<char>) -> bool {
    lookup(entries, vector_id) matches Some(s) && (s.version == u64::MAX || !sum_fits(s.components))
}

/// Whether a drain would overflow: the state's version or sum, or a remaining component beyond 64 bits.
pub open spec fn drain_overflows(entries: Seq<(Seq<char>, VectorView)>, vector_id: Seq<char>, basis_points: u16) -> bool {
    lookup(entries, vector_id) matches Some(s) && (s.version == u64::MAX || !sum_fits(s.components)
        || !(basis_points <= 10000 ==> components_fit(drained(s.components, basis_points, s.certification.auth_ratio,
            s.certification.threshold))))
}

/// Whether a settlement would overflow: the state's version, or the restored components' sum.
pub open spec fn settlement_overflows(entries: Seq<(Seq<char>, VectorView)>, vector_id: Seq<char>, gains: Seq<u128>,
    losses: Seq<u128>) -> bool
{
    lookup(entries, vector_id) matches Some(s) && (s.version == u64::MAX || (s.projection matches Some(p) &&
        p.projected_components.len() == gains.len() && p.projected_components.len() == losses.len()
        && p.projected_components.len() == s.components.len()
        && !loss_exceeds(p.projected_components, gains, losses)
        && !sum_fits(restored_components(s.components, settled_values(p.projected_components, gains, losses)))))
}

/// `e` is the overflow refusal.
pub open spec fn is_overflow(e: KernelXError) -> bool {
    e matches KernelXError::Rejected(m) && m@ == "arithmetic overflow"@
}

/// The text of the overflow refusal.
pub open spec fn overflow_refusal_text() -> Seq<char> {
    "operation rejected: "@ + "arithmetic overflow"@
}

/// The refusal an origin creation meets, as its error text, where its inputs decide one.
pub open spec fn origin_refusal(components: Seq<u128>, seed: Seq<char>, nonce: u64, difficulty: u32) -> Option<Seq<char>> {
    if !sum_fits(components) {
        Some(overflow_refusal_text())
    } else if !origin_valid(seed, nonce, difficulty) {
        Some("origin proof rejected"@)
    } else {
        None
    }
}

/// The refusal a transfer meets, as its error text, where the stored states and its inputs decide one.
pub open spec fn transfer_refusal(entries: Seq<(Seq<char>, VectorView)>, from_id: Seq<char>, to_id: Seq<char>,
    amount: Seq<u128>) -> Option<Seq<char>>
{
    if transfer_overflows(entries, from_id, to_id, amount) {
        Some(overflow_refusal_text())
    } else {
        match (lookup(entries, from_id), lookup(entries, to_id)) {
            (Some(f), Some(t)) => if f.components.len() != t.components.len() || amount.len() != f.components.len() {
                Some("dimension mismatch"@)
            } else if exceeds_balance(amount, f.components) {
                Some("insufficient balance"@)
            } else {
                None
            },
            _ => Some("vector not found"@),
        }
    }
}

/// The refusal a drain meets, as its error text, where the stored states and its inputs decide one.
pub open spec fn drain_refusal(entries: Seq<(Seq<char>, VectorView)>, vector_id: Seq<char>, basis_points: u16) -> Option<Seq<char>> {
    if drain_overflows(entries, vector_id, basis_points) {
        Some(overflow_refusal_text())
    } else if lookup(entries, vector_id) is None {
        Some("vector not found"@)
    } else if basis_points > 10000 {
        Some("operation rejected: "@ + "drain basis points must be <= 10000"@)
    } else {
        None
    }
}

/// The refusal a projection meets, as its error text, where the stored states and its inputs decide one.
pub open spec fn project_refusal(entries: Seq<(Seq<char>, VectorView)>, vector_id: Seq<char>, projected: Seq<u128>) -> Option<Seq<char>> {
    if state_overflows(entries, vector_id) {
        Some(overflow_refusal_text())
    } else {
        match lookup(entries, vector_id) {
            None => Some("vector not found"@),
            Some(s) => if projected.len() != s.components.len() {
                Some("dimension mismatch"@)
            } else if exceeds_balance(projected, s.components) {
                Some("insufficient balance"@)
            } else {
                None
            },
        }
    }
}

/// The refusal a settlement meets, as its error text, where the stored states and its inputs decide one.
pub open spec fn reconstruct_refusal(entries: Seq<(Seq<char>, VectorView)>, vector_id: Seq<char>, gains: Seq<u128>,
    losses: Seq<u128>) -> Option<Seq<char>>
{
    if settlement_overflows(entries, vector_id, gains, losses) {
        Some(overflow_refusal_text())
    } else {
        match lookup(entries, vector_id) {
            None => Some("vector not found"@),
            Some(s) => match s.projection {
                None => Some("settlement rejected: "@ + "missing projection"@),
                Some(p) => if !(p.projected_components.len() == gains.len() && p.projected_components.len() == losses.len()
                    && p.projected_components.len() == s.components.len()) {
                    Some("dimension mismatch"@)
                } else if loss_exceeds(p.projected_components, gains, losses) {
                    Some("settlement rejected: "@ + "loss exceeds projected value"@)
                } else {
                    None
                },
            },
        }
    }
}

/// The refusal a certification meets, as its error text, where the stored states decide one.
pub open spec fn certify_refusal(entries: Seq<(Seq<char>, VectorView)>, vector_id: Seq<char>) -> Option<Seq<char>> {
    if state_overflows(entries, vector_id) {
        Some(overflow_refusal_text())
    } else if lookup(entries, vector_id) is None {
        Some("vector not found"@)
    } else {
        None
    }
}

/// The inputs of an origin creation make a state whose event can be recorded.
pub open spec fn origin_ready(vector_id: Seq<char>, owner: Seq<char>, space: Seq<char>, components: Seq<u128>) -> bool {
    origin_inputs_valid(vector_id, owner, space, components) && components_fit(components)
}

/// The stored vectors of a transfer, and the receiver after it, can be recorded in events.
pub open spec fn transfer_ready(entries: Seq<(Seq<char>, VectorView)>, from_id: Seq<char>, to_id: Seq<char>,
    amount: Seq<u128>) -> bool
{
    match (lookup(entries, from_id), lookup(entries, to_id)) {
        (Some(f), Some(t)) => event_ready(f) && event_ready(t) && components_fit(credited(t.components, amount)),
        _ => true,
    }
}

/// The stored vector an operation changes, if any, can be recorded in events.
pub open spec fn stored_ready(entries: Seq<(Seq<char>, VectorView)>, vector_id: Seq<char>) -> bool {
    match lookup(entries, vector_id) {
        Some(s) => event_ready(s),
        None => true,
    }
}

/// The stored vector of a settlement, and the vector it restores, can be recorded in events.
pub open spec fn reconstruct_ready(entries: Seq<(Seq<char>, VectorView)>, vector_id: Seq<char>, gains: Seq<u128>,
    losses: Seq<u128>) -> bool
{
    match lookup(entries, vector_id) {
        Some(s) => event_ready(s) && match s.projection {
            Some(p) => components_fit(restored_components(s.components, settled_values(p.projected_components, gains, losses))),
            None => true,
        },
        None => true,
    }
}

/// `KernelEngine::origin_create`, refused with "arithmetic overflow" where the components' sum overflows.
pub fn checked_origin_create(engine: &mut KernelEngine, vector_id: String, owner_pubkey: String, space_id: String,
    components: Vec<u128>, seed: String, nonce: u64, difficulty: u32) -> (r: Result<VectorStateV1, KernelXError>)
    requires old(engine).wf(),
    ensures
        final(engine).wf(), final(engine).consensus == old(engine).consensus,
        origin_refusal(components@, seed@, nonce, difficulty) is None && origin_ready(vector_id@, owner_pubkey@, space_id@, components@)
            && log_has_room(old(engine).store.event_log()) ==> r is Ok,
        r is Ok ==> final(engine).store.event_log().len() == old(engine).store.event_log().len() + 1,
        origin_refusal(components@, seed@, nonce, difficulty) matches Some(m) ==>
            (r matches Err(e) && error_text(e) == m && final(engine).store == old(engine).store),
        !sum_fits(components@) ==> (r matches Err(e) && is_overflow(e) && *final(engine) == *old(engine)),
        sum_fits(components@) && !origin_valid(seed@, nonce, difficulty) ==>
            (r matches Err(KernelXError::OriginRejected) && final(engine).store == old(engine).store),
        r matches Ok(u) ==> {
            &&& u@ == origin_state(vector_id@, owner_pubkey@, space_id@, components@, seed@, nonce, difficulty,
                u@.created_at_ms, u@.certification.last_checked_at_ms)
            &&& final(engine).store.state_entries() == sorted_insert(old(engine).store.state_entries(), vector_id@, u@)
        },
{
    if checked_sum(&components).is_none() {
        return Err(overflow_error());
    }
    engine.origin_create(vector_id, owner_pubkey, space_id, components, seed, nonce, difficulty)
}

/// `KernelEngine::transfer`, refused with "arithmetic overflow" where a sum overflows.
pub fn checked_transfer(engine: &mut KernelEngine, from_id: &str, to_id: &str, amount: Vec<u128>)
    -> (r: Result<(VectorStateV1, VectorStateV1), KernelXError>)
    requires old(engine).wf(), components_fit(amount@),
    ensures
        final(engine).wf(), final(engine).consensus == old(engine).consensus,
        transfer_refusal(old(engine).store.state_entries(), from_id@, to_id@, amount@) is None
            && transfer_ready(old(engine).store.state_entries(), from_id@, to_id@, amount@)
            && log_has_room(old(engine).store.event_log()) ==> r is Ok,
        r is Ok ==> final(engine).store.event_log().len() == old(engine).store.event_log().len() + if from_id@ == to_id@ { 0int } else { 2int },
        transfer_refusal(old(engine).store.state_entries(), from_id@, to_id@, amount@) matches Some(m) ==>
            (r matches Err(e) && error_text(e) == m && final(engine).store == old(engine).store),
        transfer_overflows(old(engine).store.state_entries(), from_id@, to_id@, amount@) ==>
            (r matches Err(e) && is_overflow(e) && *final(engine) == *old(engine)),
        from_id@ == to_id@ ==> final(engine).store == old(engine).store,
        !transfer_overflows(old(engine).store.state_entries(), from_id@, to_id@, amount@) ==> (
            (lookup(old(engine).store.state_entries(), from_id@) is None || lookup(old(engine).store.state_entries(), to_id@) is None)
                ==> (r matches Err(KernelXError::VectorNotFound) && final(engine).store == old(engine).store)),
        !transfer_overflows(old(engine).store.state_entries(), from_id@, to_id@, amount@) ==> (
            lookup(old(engine).store.state_entries(), from_id@) matches Some(f) ==> (
                lookup(old(engine).store.state_entries(), to_id@) matches Some(t) ==> (
                    ((f.components.len() != t.components.len() || amount@.len() != f.components.len()) ==>
                        (r matches Err(KernelXError::DimensionMismatch) && final(engine).store == old(engine).store))
                    && ((f.components.len() == t.components.len() && amount@.len() == f.components.len()
                        && exceeds_balance(amount@, f.components)) ==>
                        (r matches Err(KernelXError::InsufficientBalance) && final(engine).store == old(engine).store))))),
        r matches Ok((a, b)) ==> {
            &&& lookup(old(engine).store.state_entries(), from_id@) matches Some(f)
            &&& lookup(old(engine).store.state_entries(), to_id@) matches Some(t)
            &&& a@ == transferred(f, debited(f.components, amount@), a@.certification.last_checked_at_ms)
            &&& b@ == transferred(t, credited(t.components, amount@), b@.certification.last_checked_at_ms)
            &&& final(engine).store.state_entries() == transfer_stored(old(engine).store.state_entries(), from_id@, to_id@, a@, b@)
        },
{
    let from_state = stored_state(engine, from_id);
    let to_state = stored_state(engine, to_id);
    if let Some(fs) = &from_state {
        if checked_sum(&fs.components).is_none() {
            return Err(overflow_error());
        }
        if let Some(ts) = &to_state {
            if fs.components.len() == ts.components.len() && amount.len() == fs.components.len() {
                let c = credited_values(&ts.components, &amount);
                if checked_sum(&c).is_none() {
                    return Err(overflow_error());
                }
            }
        }
    }
    engine.transfer(from_id, to_id, amount)
}

/// `KernelEngine::drain`, refused with "arithmetic overflow" where a value would overflow.
pub fn checked_drain(engine: &mut KernelEngine, vector_id: &str, basis_points: u16) -> (r: Result<VectorStateV1, KernelXError>)
    requires old(engine).wf(),
    ensures
        final(engine).wf(), final(engine).consensus == old(engine).consensus,
        drain_refusal(old(engine).store.state_entries(), vector_id@, basis_points) is None
            && stored_ready(old(engine).store.state_entries(), vector_id@)
            && log_has_room(old(engine).store.event_log()) ==> r is Ok,
        r is Ok ==> final(engine).store.event_log().len() == old(engine).store.event_log().len() + 1,
        drain_refusal(old(engine).store.state_entries(), vector_id@, basis_points) matches Some(m) ==>
            (r matches Err(e) && error_text(e) == m && final(engine).store == old(engine).store),
        drain_overflows(old(engine).store.state_entries(), vector_id@, basis_points) ==>
            (r matches Err(e) && is_overflow(e) && *final(engine) == *old(engine)),
        lookup(old(engine).store.state_entries(), vector_id@) is None ==>
            (r matches Err(KernelXError::VectorNotFound) && final(engine).store == old(engine).store),
        !drain_overflows(old(engine).store.state_entries(), vector_id@, basis_points) && basis_points > 10000
            && lookup(old(engine).store.state_entries(), vector_id@) is Some ==>
            (r matches Err(KernelXError::Rejected(m)) && m@ == "drain basis points must be <= 10000"@
                && final(engine).store == old(engine).store),
        r matches Ok(u) ==> {
            &&& lookup(old(engine).store.state_entries(), vector_id@) matches Some(s)
            &&& u@ == drained_state(s, basis_points, u@.certification.last_checked_at_ms, u@.updated_at_ms)
            &&& u@.vector_id == vector_id@
            &&& final(engine).store.state_entries() == sorted_insert(old(engine).store.state_entries(), vector_id@, u@)
        },
{
    if let Some(s) = stored_state(engine, vector_id) {
        if s.version == u64::MAX || checked_sum(&s.components).is_none() || !drain_fits(&s, basis_points) {
            return Err(overflow_error());
        }
    }
    engine.drain(vector_id, basis_points)
}

/// `KernelEngine::project`, refused with "arithmetic overflow" where the version or sum would overflow.
pub fn checked_project(engine: &mut KernelEngine, vector_id: &str, projected_components: Vec<u128>, escrow_id: String)
    -> (r: Result<VectorStateV1, KernelXError>)
    requires old(engine).wf(), components_fit(projected_components@),
    ensures
        final(engine).wf(), final(engine).consensus == old(engine).consensus,
        project_refusal(old(engine).store.state_entries(), vector_id@, projected_components@) is None
            && stored_ready(old(engine).store.state_entries(), vector_id@)
            && log_has_room(old(engine).store.event_log()) ==> r is Ok,
        r is Ok ==> final(engine).store.event_log().len() == old(engine).store.event_log().len() + 1,
        project_refusal(old(engine).store.state_entries(), vector_id@, projected_components@) matches Some(m) ==>
            (r matches Err(e) && error_text(e) == m && final(engine).store == old(engine).store),
        state_overflows(old(engine).store.state_entries(), vector_id@) ==>
            (r matches Err(e) && is_overflow(e) && *final(engine) == *old(engine)),
        lookup(old(engine).store.state_entries(), vector_id@) is None ==>
            (r matches Err(KernelXError::VectorNotFound) && final(engine).store == old(engine).store),
        !state_overflows(old(engine).store.state_entries(), vector_id@) ==>
            (lookup(old(engine).store.state_entries(), vector_id@) matches Some(s) ==> (
                (projected_components@.len() != s.components.len() ==>
                    (r matches Err(KernelXError::DimensionMismatch) && final(engine).store == old(engine).store))
                && (projected_components@.len() == s.components.len() && exceeds_balance(projected_components@, s.components) ==>
                    (r matches Err(KernelXError::InsufficientBalance) && final(engine).store == old(engine).store)))),
        r matches Ok(u) ==> {
            &&& u@.vector_id == vector_id@
            &&& lookup(old(engine).store.state_entries(), vector_id@) matches Some(s)
            &&& u@ == (VectorView {
                    certification: certification_of(u@.components, s.certification.threshold, true, true,
                        u@.certification.last_checked_at_ms),
                    ..projected_view(s, projected_components@, escrow_id@, u@.updated_at_ms)
                })
            &&& final(engine).store.state_entries() == sorted_insert(old(engine).store.state_entries(), vector_id@, u@)
        },
{
    if let Some(s) = stored_state(engine, vector_id) {
        if s.version == u64::MAX || checked_sum(&s.components).is_none() {
            return Err(overflow_error());
        }
    }
    engine.project(vector_id, projected_components, escrow_id)
}

/// `KernelEngine::reconstruct`, refused with "arithmetic overflow" where the version or restored sum would overflow.
pub fn checked_reconstruct(engine: &mut KernelEngine, vector_id: &str, outcome: SettlementOutcome)
    -> (r: Result<VectorStateV1, KernelXError>)
    requires old(engine).wf(), components_fit(outcome.gains@), components_fit(outcome.losses@),
    ensures
        final(engine).wf(), final(engine).consensus == old(engine).consensus,
        reconstruct_refusal(old(engine).store.state_entries(), vector_id@, outcome.gains@, outcome.losses@) is None
            && reconstruct_ready(old(engine).store.state_entries(), vector_id@, outcome.gains@, outcome.losses@)
            && log_has_room(old(engine).store.event_log()) ==> r is Ok,
        r is Ok ==> final(engine).store.event_log().len() == old(engine).store.event_log().len() + 1,
        reconstruct_refusal(old(engine).store.state_entries(), vector_id@, outcome.gains@, outcome.losses@) matches Some(m) ==>
            (r matches Err(e) && error_text(e) == m && final(engine).store == old(engine).store),
        settlement_overflows(old(engine).store.state_entries(), vector_id@, outcome.gains@, outcome.losses@) ==>
            (r matches Err(e) && is_overflow(e) && *final(engine) == *old(engine)),
        lookup(old(engine).store.state_entries(), vector_id@) is None ==>
            (r matches Err(KernelXError::VectorNotFound) && final(engine).store == old(engine).store),
        !settlement_overflows(old(engine).store.state_entries(), vector_id@, outcome.gains@, outcome.losses@) ==>
            (lookup(old(engine).store.state_entries(), vector_id@) matches Some(s) ==> match s.projection {
                None => r matches Err(KernelXError::SettlementRejected(m)) && m@ == "missing projection"@
                    && final(engine).store == old(engine).store,
                Some(p) => {
                    let pc = p.projected_components;
                    &&& !(pc.len() == outcome.gains@.len() && pc.len() == outcome.losses@.len() && pc.len() == s.components.len())
                        ==> (r matches Err(KernelXError::DimensionMismatch) && final(engine).store == old(engine).store)
                    &&& (pc.len() == outcome.gains@.len() && pc.len() == outcome.losses@.len() && pc.len() == s.components.len()
                        && loss_exceeds(pc, outcome.gains@, outcome.losses@))
                        ==> (r matches Err(KernelXError::SettlementRejected(m)) && m@ == "loss exceeds projected value"@
                            && final(engine).store == old(engine).store)
                },
            }),
        r matches Ok(u) ==> {
            &&& u@.vector_id == vector_id@
            &&& lookup(old(engine).store.state_entries(), vector_id@) matches Some(s)
            &&& s.projection matches Some(p)
            &&& u@.projection matches Some(up) && up.settlement_at_ms matches Some(at)
                && u@ == (VectorView {
                    certification: certification_of(u@.components, s.certification.threshold, true, true,
                        u@.certification.last_checked_at_ms),
                    ..reconstructed_view(s, p, outcome.outcome_tag@, outcome.gains@, outcome.losses@, at, u@.updated_at_ms)
                })
            &&& final(engine).store.state_entries() == sorted_insert(old(engine).store.state_entries(), vector_id@, u@)
        },
{
    if let Some(s) = stored_state(engine, vector_id) {
        if s.version == u64::MAX || !settlement_fits(&s, &outcome.gains, &outcome.losses) {
            return Err(overflow_error());
        }
    }
    engine.reconstruct(vector_id, outcome)
}

/// `KernelEngine::certify`, refused with "arithmetic overflow" where the version or sum would overflow.
pub fn checked_certify(engine: &mut KernelEngine, vector_id: &str) -> (r: Result<VectorStateV1, KernelXError>)
    requires old(engine).wf(),
    ensures
        final(engine).wf(), final(engine).consensus == old(engine).consensus,
        certify_refusal(old(engine).store.state_entries(), vector_id@) is None
            && stored_ready(old(engine).store.state_entries(), vector_id@)
            && log_has_room(old(engine).store.event_log()) ==> r is Ok,
        r is Ok ==> final(engine).store.event_log().len() == old(engine).store.event_log().len() + 1,
        certify_refusal(old(engine).store.state_entries(), vector_id@) matches Some(m) ==>
            (r matches Err(e) && error_text(e) == m && final(engine).store == old(engine).store),
        state_overflows(old(engine).store.state_entries(), vector_id@) ==>
            (r matches Err(e) && is_overflow(e) && *final(engine) == *old(engine)),
        lookup(old(engine).store.state_entries(), vector_id@) is None ==>
            (r matches Err(KernelXError::VectorNotFound) && final(engine).store == old(engine).store),
        r matches Ok(u) ==> {
            &&& lookup(old(engine).store.state_entries(), vector_id@) matches Some(s)
            &&& u@ == certified_state(s, u@.certification.last_checked_at_ms, u@.updated_at_ms)
            &&& u@.vector_id == vector_id@
            &&& final(engine).store.state_entries() == sorted_insert(old(engine).store.state_entries(), vector_id@, u@)
        },
{
    if let Some(s) = stored_state(engine, vector_id) {
        if s.version == u64::MAX || checked_sum(&s.components).is_none() {
            return Err(overflow_error());
        }
    }
    engine.certify(vector_id)
}

} // verus!
