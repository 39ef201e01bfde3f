use vstd::prelude::*;
use vstd::string::StringExecFns;
use crate::error::KernelXError;
use crate::state::{now_ms, ProjectionState, ProjectionView, VectorStateV1, VectorStatus, VectorType, VectorView};

verus! {

/// Whether some projected component exceeds its live balance.
pub open spec fn exceeds_balance(requested: Seq<u128>, balance: Seq<u128>) -> bool {
    exists|i: int| 0 <= i < requested.len() && i < balance.len() && #[trigger] requested[i] > balance[i]
}

/// The live balance minus the projected slice.
pub open spec fn remainder_of(balance: Seq<u128>, projected: Seq<u128>) -> Seq<u128> {
    Seq::new(balance.len(), |i: int| (balance[i] - projected[i]) as u128)
}

/// The projected state, given the time the projection started.
pub open spec fn projected_view(state: VectorView, projected: Seq<u128>, escrow_id: Seq<char>, started_at_ms: u64) -> VectorView {
    VectorView {
        components: remainder_of(state.components, projected),
        status: VectorStatus::Projected,
        vector_type: VectorType::Projected,
        projection: Some(ProjectionView {
            escrow_id,
            projected_components: projected,
            settled_components: Seq::empty(),
            started_at_ms,
            settlement_at_ms: None,
            outcome_tag: None,
        }),
        updated_at_ms: started_at_ms,
        version: (state.version + 1) as u64,
        ..state
    }
}

/// Moves a slice of the live balance into escrow.
#[verifier::loop_isolation(false)]
pub fn project_vector(state: VectorStateV1, projected_components: Vec<u128>, escrow_id: String)
    -> (r: Result<VectorStateV1, KernelXError>)
    requires state.version < u64::MAX,
    ensures
        projected_components@.len() != state.components@.len() ==> r matches Err(KernelXError::DimensionMismatch),
        projected_components@.len() == state.components@.len() && exceeds_balance(projected_components@, state.components@)
            ==> r matches Err(KernelXError::InsufficientBalance),
        projected_components@.len() == state.components@.len() && !exceeds_balance(projected_components@, state.components@)
            ==> (r matches Ok(s) && s@ == projected_view(state@, projected_components@, escrow_id@, s.updated_at_ms)),
{
    if projected_components.len() != state.components.len() {
        return Err(KernelXError::DimensionMismatch);
    }
    let mut i: usize = 0;
    while i < projected_components.len()
        invariant
            i <= projected_components.len(),
            projected_components@.len() == state.components@.len(),
            forall|j: int| 0 <= j < i ==> projected_components@[j] <= state.components@[j],
        decreases projected_components.len() - i,
    {
        if projected_components[i] > state.components[i] {
            return Err(KernelXError::InsufficientBalance);
        }
        i += 1;
    }
    let started_at_ms = now_ms();
    let mut remainder: Vec<u128> = Vec::new();
    let mut k: usize = 0;
    while k < state.components.len()
        invariant
            k <= state.components.len(),
            projected_components@.len() == state.components@.len(),
            forall|j: int| 0 <= j < state.components@.len() ==> projected_components@[j] <= state.components@[j],
            remainder@ =~= remainder_of(state.components@, projected_components@).take(k as int),
        decreases state.components.len() - k,
    {
        remainder.push(state.components[k].saturating_sub(projected_components[k]));
        k += 1;
    }
    assert(remainder@ =~= remainder_of(state.components@, projected_components@));
    let mut s = state;
    s.components = remainder;
    s.status = VectorStatus::Projected;
    s.vector_type = VectorType::Projected;
    s.projection = Some(ProjectionState {
        escrow_id,
        projected_components,
        settled_components: Vec::new(),
        started_at_ms,
        settlement_at_ms: None,
        outcome_tag: None,
    });
    s.updated_at_ms = started_at_ms;
    s.version = s.version + 1;
    Ok(s)
}

} // verus!
