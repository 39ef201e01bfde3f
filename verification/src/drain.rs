use vstd::prelude::*;
use vstd::string::StringExecFns;
use crate::error::KernelXError;

verus! {

/// The effective rate: certified vectors pay half the basis points.
pub open spec fn effective_drain_bps(basis_points: u16, auth_ratio: u16, threshold: u16) -> u16 {
    if auth_ratio >= threshold { (basis_points / 2) as u16 } else { basis_points }
}

/// The fee on one amount: `amount * rate / 10000`, the product saturating at `u128::MAX`.
pub open spec fn drain_fee(amount: u128, rate: u16) -> u128 {
    let product: int = amount * rate;
    (if product > u128::MAX { (u128::MAX / 10000) as int } else { product / 10000 }) as u128
}

/// Applies a basis-point drain: returns the fees and the remaining amounts.
pub fn apply_drain(amounts: &[u128], basis_points: u16, auth_ratio: u16, threshold: u16)
    -> (r: Result<(Vec<u128>, Vec<u128>), KernelXError>)
    ensures
        basis_points > 10000 <==> r is Err,
        r matches Err(e) ==> (e matches KernelXError::Rejected(m) && m@ == "drain basis points must be <= 10000"@),
        r matches Ok((drained, remaining)) ==> {
            &&& drained@.len() == amounts@.len()
            &&& remaining@.len() == amounts@.len()
            &&& forall|i: int| 0 <= i < amounts@.len() ==> {
                &&& #[trigger] drained@[i] == drain_fee(amounts@[i], effective_drain_bps(basis_points, auth_ratio, threshold))
                &&& drained@[i] <= amounts@[i]
                &&& remaining@[i] == amounts@[i] - drained@[i]
            }
        },
{
    if basis_points > 10000 {
        return Err(KernelXError::Rejected(String::from_str("drain basis points must be <= 10000")));
    }
    let discount: u16 = if auth_ratio >= threshold { basis_points / 2 } else { basis_points };
    let mut drained: Vec<u128> = Vec::new();
    let mut remaining: Vec<u128> = Vec::new();
    let mut i: usize = 0;
    while i < amounts.len()
        invariant
            i <= amounts.len(),
            discount <= 10000,
            discount == effective_drain_bps(basis_points, auth_ratio, threshold),
            drained@.len() == i,
            remaining@.len() == i,
            forall|j: int| 0 <= j < i ==> {
                &&& #[trigger] drained@[j] == drain_fee(amounts@[j], discount)
                &&& drained@[j] <= amounts@[j]
                &&& remaining@[j] == amounts@[j] - drained@[j]
            },
        decreases amounts.len() - i,
    {
        let amount = amounts[i];
        let product = match amount.checked_mul(discount as u128) {
            Some(p) => p,
            None => u128::MAX,
        };
        let fee = product / 10000;
        proof {
            let p: int = amount * discount;
            if p > u128::MAX {
                assert(amount * 10000 >= amount * discount) by (nonlinear_arith) requires discount <= 10000;
                assert(u128::MAX / 10000 <= amount) by (nonlinear_arith) requires amount * 10000 > u128::MAX;
            } else {
                assert(p / 10000 <= amount) by (nonlinear_arith) requires p == amount * discount, discount <= 10000, amount >= 0;
            }
        }
        drained.push(fee);
        remaining.push(amount.saturating_sub(fee));
        i += 1;
    }
    Ok((drained, remaining))
}


/// A drain at a rate of at most 10000 basis points never takes more than the amount.
pub proof fn lemma_drain_fee_bounded(amount: u128, rate: u16)
    requires rate <= 10000,
    ensures drain_fee(amount, rate) <= amount,
{
    let product: int = amount * rate;
    if product > u128::MAX {
        assert(amount * rate <= amount * 10000) by (nonlinear_arith) requires rate <= 10000;
        assert(u128::MAX / 10000 <= amount) by (nonlinear_arith)
            requires amount * 10000 >= amount * rate, amount * rate > u128::MAX;
    } else {
        assert(amount * rate <= amount * 10000) by (nonlinear_arith) requires rate <= 10000;
        assert((amount * rate) / 10000 <= amount) by (nonlinear_arith) requires amount * rate <= amount * 10000;
    }
}

/// The effective rate never exceeds the requested one.
pub proof fn lemma_effective_rate_bounded(basis_points: u16, auth_ratio: u16, threshold: u16)
    ensures effective_drain_bps(basis_points, auth_ratio, threshold) <= basis_points,
{
}

/// The fee a drain takes: the full `amount * basis_points / 10000` from a vector below its
/// threshold, and half the basis points from one that reaches it.
pub proof fn lemma_drain_rate(amount: u128, basis_points: u16, auth_ratio: u16, threshold: u16)
    requires basis_points <= 10000, amount * basis_points <= u128::MAX,
    ensures
        auth_ratio < threshold ==>
            drain_fee(amount, effective_drain_bps(basis_points, auth_ratio, threshold)) == amount * basis_points / 10000,
        auth_ratio >= threshold ==>
            drain_fee(amount, effective_drain_bps(basis_points, auth_ratio, threshold)) == amount * (basis_points / 2) / 10000,
{
    assert(amount * (basis_points / 2) <= amount * basis_points) by (nonlinear_arith)
        requires basis_points / 2 <= basis_points;
}

/// A vector below its threshold never pays less than one that reaches it.
pub proof fn lemma_uncertified_pays_more(amount: u128, basis_points: u16, low: u16, high: u16, threshold: u16)
    requires basis_points <= 10000, amount * basis_points <= u128::MAX, low < threshold, threshold <= high,
    ensures
        drain_fee(amount, effective_drain_bps(basis_points, low, threshold))
            >= drain_fee(amount, effective_drain_bps(basis_points, high, threshold)),
{
    lemma_drain_rate(amount, basis_points, low, threshold);
    lemma_drain_rate(amount, basis_points, high, threshold);
    assert(amount * (basis_points / 2) <= amount * basis_points) by (nonlinear_arith)
        requires basis_points / 2 <= basis_points;
    assert(amount * (basis_points / 2) / 10000 <= amount * basis_points / 10000) by (nonlinear_arith)
        requires amount * (basis_points / 2) <= amount * basis_points;
}

} // verus!
