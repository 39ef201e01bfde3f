use vstd::prelude::*;
use crate::state::{now_ms, sum_u128, CertificationState, CertificationView, VectorStateV1};
use crate::text::{decimal, push_decimal, push_str, string_from_chars};

verus! {

/// The fixed-point auth ratio in `0..=1000` of a component sequence.
pub open spec fn auth_ratio_of(components: Seq<u128>, ownership_verified: bool, structure_verified: bool) -> u16 {
    let magnitude_score: int = if sum_u128(components) == 0 { 100 } else { 400 };
    let direction_score: int = if components.len() == 0 { 0 } else { 200 };
    let ownership_score: int = if ownership_verified { 300 } else { 0 };
    let structure_score: int = if structure_verified { 100 } else { 0 };
    let total = magnitude_score + direction_score + ownership_score + structure_score;
    (if total < 1000 { total } else { 1000 }) as u16
}

/// The auth ratio of a state, on the fixed-point `0..=1000` scale.
pub fn compute_auth_ratio(state: &VectorStateV1, ownership_verified: bool, structure_verified: bool) -> (r: u16)
    requires state.spec_magnitude() <= u128::MAX,
    ensures
        r == auth_ratio_of(state.components@, ownership_verified, structure_verified),
        r <= 1000,
{
    let magnitude_score: u32 = if state.magnitude() == 0 { 100 } else { 400 };
    let direction_score: u32 = if state.components.len() == 0 { 0 } else { 200 };
    let ownership_score: u32 = if ownership_verified { 300 } else { 0 };
    let structure_score: u32 = if structure_verified { 100 } else { 0 };
    let total = magnitude_score + direction_score + ownership_score + structure_score;
    let capped = if total < 1000 { total } else { 1000 };
    capped as u16
}

/// The reason text of a failed certification.
pub open spec fn below_threshold_reason(auth_ratio: u16, threshold: u16) -> Seq<char> {
    "auth_ratio "@ + decimal(auth_ratio as nat) + " below threshold "@ + decimal(threshold as nat)
}

/// The certification that `certify_state` computes, apart from its check time.
pub open spec fn certification_of(components: Seq<u128>, threshold: u16, ownership_verified: bool,
    structure_verified: bool, checked_at: u64) -> CertificationView
{
    let auth_ratio = auth_ratio_of(components, ownership_verified, structure_verified);
    CertificationView {
        certified: auth_ratio >= threshold,
        auth_ratio,
        threshold,
        last_checked_at_ms: checked_at,
        reason: if auth_ratio >= threshold { None } else { Some(below_threshold_reason(auth_ratio, threshold)) },
    }
}

/// Scores a state and certifies it when the auth ratio reaches its threshold.
pub fn certify_state(state: &VectorStateV1, ownership_verified: bool, structure_verified: bool) -> (r: CertificationState)
    requires state.spec_magnitude() <= u128::MAX,
    ensures
        r@ == certification_of(state.components@, state.certification.threshold, ownership_verified,
            structure_verified, r.last_checked_at_ms),
{
    let auth_ratio = compute_auth_ratio(state, ownership_verified, structure_verified);
    let threshold = state.certification.threshold;
    let reason = if auth_ratio >= threshold {
        None
    } else {
        let mut v: Vec<char> = Vec::new();
        push_str(&mut v, "auth_ratio ");
        push_decimal(&mut v, auth_ratio as u128);
        push_str(&mut v, " below threshold ");
        push_decimal(&mut v, threshold as u128);
        proof {
            assert(v@ =~= below_threshold_reason(auth_ratio, threshold));
        }
        Some(string_from_chars(v.as_slice()))
    };
    CertificationState {
        certified: auth_ratio >= threshold,
        auth_ratio,
        threshold,
        last_checked_at_ms: now_ms(),
        reason,
    }
}

/// Whether the state carries a passing certification.
pub fn is_certified(state: &VectorStateV1) -> (r: bool)
    ensures r == state.certification.certified,
{
    state.certification.certified
}

/// A non-empty vector whose ownership and structure are verified always certifies
/// at the default threshold of 700, zero or not.
pub proof fn verified_nonempty_vector_certifies(components: Seq<u128>)
    requires components.len() > 0,
    ensures
        auth_ratio_of(components, true, true) >= 700,
        certification_of(components, 700, true, true, 0).certified,
{
}

/// How the auth ratio is scored: 400 for a nonzero magnitude (100 for zero), 200 for having
/// any component, 300 for verified ownership and 100 for verified structure, capped at 1000.
pub proof fn lemma_auth_ratio_scores(components: Seq<u128>, ownership_verified: bool, structure_verified: bool)
    ensures ({
        let extra: int = (if ownership_verified { 300int } else { 0int }) + (if structure_verified { 100int } else { 0int });
        let r = auth_ratio_of(components, ownership_verified, structure_verified) as int;
        &&& components.len() > 0 && sum_u128(components) != 0 ==> r == if 600 + extra < 1000 { 600 + extra } else { 1000 }
        &&& components.len() > 0 && sum_u128(components) == 0 ==> r == 300 + extra
        &&& components.len() == 0 ==> r == 100 + extra
    }),
{
    if components.len() == 0 {
        assert(sum_u128(components) == 0);
    }
}

/// A nonzero vector with ownership and structure verified scores the full 1000, and one with
/// neither verified scores 600.
pub proof fn lemma_nonzero_vector_scores(components: Seq<u128>)
    requires components.len() > 0, sum_u128(components) != 0,
    ensures
        auth_ratio_of(components, true, true) == 1000,
        auth_ratio_of(components, false, false) == 600,
        auth_ratio_of(components, false, true) == 700,
        auth_ratio_of(components, true, false) == 900,
{
}

/// A certification passes exactly when the auth ratio reaches the threshold; a failing one
/// gives the ratio and threshold as its reason.
pub proof fn lemma_certification_verdict(components: Seq<u128>, threshold: u16, ownership_verified: bool,
    structure_verified: bool, checked_at: u64)
    ensures ({
        let c = certification_of(components, threshold, ownership_verified, structure_verified, checked_at);
        &&& c.auth_ratio == auth_ratio_of(components, ownership_verified, structure_verified)
        &&& c.threshold == threshold
        &&& c.certified <==> c.auth_ratio >= threshold
        &&& c.certified <==> c.reason is None
        &&& !c.certified ==> c.reason == Some("auth_ratio "@ + decimal(c.auth_ratio as nat) + " below threshold "@ + decimal(threshold as nat))
    }),
{
}

} // verus!
