use vstd::prelude::*;
use crate::error::KernelXError;
use crate::projection::exceeds_balance;
use crate::reconstruction::sat_add;
use crate::state::{sum_u128, VectorStateV1, VectorType, VectorView};
use crate::certification::{certification_of, certify_state};
use crate::hash::hash_hex;
use crate::record::{record_wf, make_record_id, params_text, record_bytes, record_id_material, OperationKind, OperationKindView, ParamValue,
    ParamView, RecordParams, VectorRecordV1};
use crate::strmap::sorted_insert;
use vstd::string::StringExecFns;

verus! {

/// The sender's components after a transfer.
pub open spec fn debited(balance: Seq<u128>, amount: Seq<u128>) -> Seq<u128> {
    Seq::new(balance.len(), |i: int| (balance[i] - amount[i]) as u128)
}

/// The receiver's components after a transfer (saturating).
pub open spec fn credited(balance: Seq<u128>, amount: Seq<u128>) -> Seq<u128> {
    Seq::new(balance.len(), |i: int| sat_add(balance[i], amount[i]))
}

/// Moves `amount` from one vector to another of the same shape.
#[verifier::loop_isolation(false)]
pub fn transfer_components(from: VectorStateV1, to: VectorStateV1, amount: Vec<u128>)
    -> (r: Result<(VectorStateV1, VectorStateV1), KernelXError>)
    ensures
        (from.components@.len() != to.components@.len() || amount@.len() != from.components@.len())
            ==> r matches Err(KernelXError::DimensionMismatch),
        from.components@.len() == to.components@.len() && amount@.len() == from.components@.len() ==> {
            &&& (exceeds_balance(amount@, from.components@) ==> r matches Err(KernelXError::InsufficientBalance))
            &&& (!exceeds_balance(amount@, from.components@) ==> (r matches Ok((s, t))
                && s@ == (VectorView { components: debited(from.components@, amount@), vector_type: VectorType::Standard, ..from@ })
                && t@ == (VectorView { components: credited(to.components@, amount@), vector_type: VectorType::Standard, ..to@ })))
        },
{
    from.ensure_same_shape(&to)?;
    if from.components.len() != amount.len() {
        return Err(KernelXError::DimensionMismatch);
    }
    let n = amount.len();
    let mut i: usize = 0;
    while i < n
        invariant
            i <= n, n == amount@.len(), n == from.components@.len(),
            forall|j: int| 0 <= j < i ==> amount@[j] <= from.components@[j],
        decreases n - i,
    {
        if amount[i] > from.components[i] {
            return Err(KernelXError::InsufficientBalance);
        }
        i += 1;
    }
    let mut sent: Vec<u128> = Vec::new();
    let mut got: Vec<u128> = Vec::new();
    let mut k: usize = 0;
    while k < n
        invariant
            k <= n, n == amount@.len(), n == from.components@.len(), n == to.components@.len(),
            forall|j: int| 0 <= j < n ==> amount@[j] <= from.components@[j],
            sent@ =~= debited(from.components@, amount@).take(k as int),
            got@ =~= credited(to.components@, amount@).take(k as int),
        decreases n - k,
    {
        sent.push(from.components[k].saturating_sub(amount[k]));
        got.push(to.components[k].saturating_add(amount[k]));
        k += 1;
    }
    assert(sent@ =~= debited(from.components@, amount@));
    assert(got@ =~= credited(to.components@, amount@));
    let mut sender = from;
    let mut receiver = to;
    sender.components = sent;
    receiver.components = got;
    sender.vector_type = VectorType::Standard;
    receiver.vector_type = VectorType::Standard;
    Ok((sender, receiver))
}

/// The sum of a component-wise sum is the sum of the sums.
pub proof fn lemma_sum_pointwise(a: Seq<u128>, b: Seq<u128>, c: Seq<u128>)
    requires
        a.len() == b.len(), b.len() == c.len(),
        forall|i: int| 0 <= i < a.len() ==> c[i] + b[i] == #[trigger] a[i],
    ensures sum_u128(c) + sum_u128(b) == sum_u128(a),
    decreases a.len(),
{
    if a.len() > 0 {
        lemma_sum_pointwise(a.drop_last(), b.drop_last(), c.drop_last());
    }
}

/// A transfer conserves value: what the sender loses the receiver gains, so the total
/// magnitude of the pair is unchanged unless a receiving component saturates.
pub proof fn transfer_conserves_magnitude(from: Seq<u128>, to: Seq<u128>, amount: Seq<u128>)
    requires
        from.len() == to.len(), amount.len() == from.len(),
        !exceeds_balance(amount, from),
        forall|i: int| 0 <= i < to.len() ==> to[i] + amount[i] <= u128::MAX,
    ensures
        sum_u128(debited(from, amount)) + sum_u128(amount) == sum_u128(from),
        sum_u128(to) + sum_u128(amount) == sum_u128(credited(to, amount)),
        sum_u128(debited(from, amount)) + sum_u128(credited(to, amount)) == sum_u128(from) + sum_u128(to),
{
    assert forall|i: int| 0 <= i < from.len() implies debited(from, amount)[i] + amount[i] == #[trigger] from[i] by {
        assert(!(amount[i] > from[i]));
    }
    lemma_sum_pointwise(from, amount, debited(from, amount));
    lemma_sum_pointwise(credited(to, amount), amount, to);
}

/// The parameters of a transfer record: the amount, the direction and the new version.
pub open spec fn transfer_params(amount: Seq<u128>, direction: Seq<char>, version: u64) -> Seq<(Seq<char>, ParamView)> {
    let p0 = sorted_insert(Seq::empty(), "direction"@, ParamView::Text(direction));
    let p1 = sorted_insert(p0, "amount"@, ParamView::Numbers(amount.map_values(|a: u128| a as u64)));
    sorted_insert(p1, "version"@, ParamView::Number(version))
}

/// The record of one side of a transfer.
pub open spec fn transfer_record_is(r: VectorRecordV1, before: VectorStateV1, after: VectorStateV1, amount: Seq<u128>,
    direction: Seq<char>, prefix: Seq<char>) -> bool
{
    let params = transfer_params(amount, direction, after.version);
    &&& r@.record_id == hash_hex(record_id_material(prefix, after.vector_id@, params_text(params)))
    &&& r@.vector_id == after.vector_id@
    &&& r@.before == Some(before@)
    &&& r@.after == after@
    &&& r@.operation == OperationKindView::Transfer
    &&& r@.parameters == params
    &&& r@.certification == certification_of(after.components@, after.certification.threshold, true, true,
            r@.certification.last_checked_at_ms)
    &&& r@.proof == hash_hex(record_bytes(VectorRecordV1 { certification: after.certification, ..r }@))
}

fn amount_numbers(amount: &Vec<u128>) -> (r: Vec<u64>)
    requires forall|i: int| 0 <= i < amount@.len() ==> amount@[i] <= u64::MAX,
    ensures r@ == amount@.map_values(|a: u128| a as u64),
{
    let mut out: Vec<u64> = Vec::new();
    let mut i: usize = 0;
    while i < amount.len()
        invariant
            i <= amount.len(), forall|j: int| 0 <= j < amount@.len() ==> amount@[j] <= u64::MAX,
            out@ =~= amount@.map_values(|a: u128| a as u64).take(i as int),
        decreases amount.len() - i,
    {
        out.push(amount[i] as u64);
        i += 1;
        assert(out@ =~= amount@.map_values(|a: u128| a as u64).take(i as int));
    }
    out
}

fn side_record(before: &VectorStateV1, after: &VectorStateV1, amount: &Vec<u128>, direction: &str, prefix: &str) -> (r: VectorRecordV1)
    requires
        forall|i: int| 0 <= i < amount@.len() ==> amount@[i] <= u64::MAX,
        before.type_metadata.wf(), after.type_metadata.wf(), after.spec_magnitude() <= u128::MAX,
    ensures transfer_record_is(r, *before, *after, amount@, direction@, prefix@), record_wf(&r),
{
    let mut params = RecordParams::new();
    params.insert(String::from_str("direction"), ParamValue::Text(String::from_str(direction)));
    params.insert(String::from_str("amount"), ParamValue::Numbers(amount_numbers(amount)));
    params.insert(String::from_str("version"), ParamValue::Number(after.version));
    let text = crate::record::params_to_json(&params);
    let id = make_record_id(prefix, after.vector_id.as_str(), text.as_str());
    let record = VectorRecordV1::new(id, after.vector_id.clone(), Some(before.duplicate()), after.duplicate(),
        OperationKind::Transfer, params);
    let mut record = record;
    record.certification = certify_state(after, true, true);
    record
}

/// The sender's and receiver's records of a transfer, each certified as its new state is.
/// The proof of each record is taken with the certification the new state carries.
pub fn transfer_record(before_from: &VectorStateV1, before_to: &VectorStateV1, after_from: &VectorStateV1,
    after_to: &VectorStateV1, amount: Vec<u128>) -> (r: (VectorRecordV1, VectorRecordV1))
    requires
        forall|i: int| 0 <= i < amount@.len() ==> amount@[i] <= u64::MAX,
        before_from.type_metadata.wf(), before_to.type_metadata.wf(),
        after_from.type_metadata.wf(), after_to.type_metadata.wf(),
        after_from.spec_magnitude() <= u128::MAX, after_to.spec_magnitude() <= u128::MAX,
    ensures
        transfer_record_is(r.0, *before_from, *after_from, amount@, "out"@, "transfer-out"@),
        transfer_record_is(r.1, *before_to, *after_to, amount@, "in"@, "transfer-in"@),
        record_wf(&r.0), record_wf(&r.1),
{
    let sender = side_record(before_from, after_from, &amount, "out", "transfer-out");
    let receiver = side_record(before_to, after_to, &amount, "in", "transfer-in");
    (sender, receiver)
}


/// A transfer undone by the reverse transfer of the same amount gives both sides back their
/// components, when no receiving component saturates.
pub proof fn lemma_transfer_round_trip(from: Seq<u128>, to: Seq<u128>, amount: Seq<u128>)
    requires
        from.len() == to.len(), amount.len() == from.len(),
        !exceeds_balance(amount, from),
        forall|i: int| 0 <= i < to.len() ==> to[i] + amount[i] <= u128::MAX,
    ensures
        !exceeds_balance(amount, credited(to, amount)),
        credited(debited(from, amount), amount) == from,
        debited(credited(to, amount), amount) == to,
{
    assert forall|i: int| 0 <= i < from.len() implies #[trigger] credited(debited(from, amount), amount)[i] == from[i] by {
        assert(!(amount[i] > from[i]));
    }
    assert forall|i: int| 0 <= i < to.len() implies #[trigger] debited(credited(to, amount), amount)[i] == to[i] by {
        assert(credited(to, amount)[i] == to[i] + amount[i]);
    }
    assert(credited(debited(from, amount), amount) =~= from);
    assert(debited(credited(to, amount), amount) =~= to);
}

} // verus!
