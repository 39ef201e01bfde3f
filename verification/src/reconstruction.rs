use vstd::prelude::*;
use vstd::string::StringExecFns;
use crate::error::KernelXError;
use crate::state::{now_ms, ProjectionView, VectorStateV1, VectorStatus, VectorType, VectorView};

verus! {

/// The result of settling an escrowed projection.
#[derive(Clone, Debug)]
pub struct SettlementOutcome {
    pub outcome_tag: String,
    pub gains: Vec<u128>,
    pub losses: Vec<u128>,
}

pub open spec fn sat_add(a: u128, b: u128) -> u128 {
    if a + b > u128::MAX { u128::MAX } else { (a + b) as u128 }
}

/// Principal plus gain (saturating), the quantity a loss is taken from.
pub open spec fn settled_gross(principal: Seq<u128>, gains: Seq<u128>, i: int) -> u128 {
    sat_add(principal[i], gains[i])
}

/// Whether some loss exceeds the projected value plus its gain.
pub open spec fn loss_exceeds(principal: Seq<u128>, gains: Seq<u128>, losses: Seq<u128>) -> bool {
    exists|i: int| 0 <= i < principal.len() && #[trigger] losses[i] > settled_gross(principal, gains, i)
}

/// The settled value of each projected component.
pub open spec fn settled_values(principal: Seq<u128>, gains: Seq<u128>, losses: Seq<u128>) -> Seq<u128> {
    Seq::new(principal.len(), |i: int| (settled_gross(principal, gains, i) - losses[i]) as u128)
}

/// The remaining balance with the settled values added back, component by component.
pub open spec fn restored_components(remaining: Seq<u128>, settled: Seq<u128>) -> Seq<u128> {
    Seq::new(remaining.len(), |i: int| sat_add(remaining[i], settled[i]))
}

/// The settled state, given the two clock readings it takes.
pub open spec fn reconstructed_view(state: VectorView, p: ProjectionView, tag: Seq<char>, gains: Seq<u128>,
    losses: Seq<u128>, settled_at: u64, updated_at: u64) -> VectorView
{
    let settled = settled_values(p.projected_components, gains, losses);
    VectorView {
        components: restored_components(state.components, settled),
        projection: Some(ProjectionView {
            settled_components: settled,
            settlement_at_ms: Some(settled_at),
            outcome_tag: Some(tag),
            ..p
        }),
        vector_type: VectorType::Settlement,
        status: VectorStatus::Settled,
        updated_at_ms: updated_at,
        version: (state.version + 1) as u64,
        ..state
    }
}

/// Settles the projected slice and adds the settled result back into the remaining
/// components, keeping the component count.
#[verifier::loop_isolation(false)]
pub fn reconstruct_vector(state: VectorStateV1, outcome: SettlementOutcome) -> (r: Result<VectorStateV1, KernelXError>)
    requires state.version < u64::MAX,
    ensures
        state.projection is None ==> (r matches Err(KernelXError::SettlementRejected(m)) && m@ == "missing projection"@),
        state.projection matches Some(p) ==> {
            let pc = p.projected_components@;
            let dims_ok = pc.len() == outcome.gains@.len() && pc.len() == outcome.losses@.len()
                && pc.len() == state.components@.len();
            &&& (!dims_ok ==> r matches Err(KernelXError::DimensionMismatch))
            &&& (dims_ok && loss_exceeds(pc, outcome.gains@, outcome.losses@)
                ==> (r matches Err(KernelXError::SettlementRejected(m)) && m@ == "loss exceeds projected value"@))
            &&& (dims_ok && !loss_exceeds(pc, outcome.gains@, outcome.losses@) ==> (r matches Ok(s)
                && s.projection matches Some(sp) && sp.settlement_at_ms matches Some(at)
                && s@ == reconstructed_view(state@, p@, outcome.outcome_tag@, outcome.gains@, outcome.losses@, at, s.updated_at_ms)))
        },
{
    let p = match &state.projection {
        Some(p) => p,
        None => { return Err(KernelXError::SettlementRejected(String::from_str("missing projection"))); }
    };
    let n = p.projected_components.len();
    if n != outcome.gains.len() || n != outcome.losses.len() || n != state.components.len() {
        return Err(KernelXError::DimensionMismatch);
    }
    let ghost pc = p.projected_components@;
    let mut settled: Vec<u128> = Vec::new();
    let mut i: usize = 0;
    while i < n
        invariant
            i <= n, n == pc.len(), pc == p.projected_components@,
            n == outcome.gains@.len(), n == outcome.losses@.len(),
            settled@ =~= settled_values(pc, outcome.gains@, outcome.losses@).take(i as int),
            forall|j: int| 0 <= j < i ==> outcome.losses@[j] <= #[trigger] settled_gross(pc, outcome.gains@, j),
        decreases n - i,
    {
        let after_gain = p.projected_components[i].saturating_add(outcome.gains[i]);
        if outcome.losses[i] > after_gain {
            return Err(KernelXError::SettlementRejected(String::from_str("loss exceeds projected value")));
        }
        settled.push(after_gain - outcome.losses[i]);
        i += 1;
    }
    assert(settled@ =~= settled_values(pc, outcome.gains@, outcome.losses@));
    let mut restored: Vec<u128> = Vec::new();
    let mut k: usize = 0;
    while k < n
        invariant
            k <= n, n == state.components@.len(), settled@.len() == n,
            restored@ =~= restored_components(state.components@, settled@).take(k as int),
        decreases n - k,
    {
        restored.push(state.components[k].saturating_add(settled[k]));
        k += 1;
    }
    assert(restored@ =~= restored_components(state.components@, settled@));
    let mut s = state;
    let mut proj = s.projection.unwrap();
    proj.settled_components = settled;
    proj.settlement_at_ms = Some(now_ms());
    proj.outcome_tag = Some(outcome.outcome_tag);
    s.components = restored;
    s.projection = Some(proj);
    s.vector_type = VectorType::Settlement;
    s.status = VectorStatus::Settled;
    s.updated_at_ms = now_ms();
    s.version = s.version + 1;
    Ok(s)
}


/// Settling a projection with no gain and no loss gives back the components as they were
/// before the projection: the remainder plus the settled slice is the balance it started from.
pub proof fn lemma_neutral_settlement_restores(balance: Seq<u128>, projected: Seq<u128>, zeros: Seq<u128>)
    requires
        projected.len() == balance.len(), zeros.len() == balance.len(),
        !crate::projection::exceeds_balance(projected, balance),
        forall|i: int| 0 <= i < zeros.len() ==> zeros[i] == 0,
    ensures
        !loss_exceeds(projected, zeros, zeros),
        restored_components(crate::projection::remainder_of(balance, projected), settled_values(projected, zeros, zeros)) == balance,
{
    let rest = crate::projection::remainder_of(balance, projected);
    let settled = settled_values(projected, zeros, zeros);
    assert forall|i: int| 0 <= i < balance.len() implies
        #[trigger] restored_components(rest, settled)[i] == balance[i] by {
        assert(!(projected[i] > balance[i]));
        assert(settled[i] == projected[i]);
    }
    assert(restored_components(rest, settled) =~= balance);
}

/// What settling does to one component: the settled value is the principal plus its gain less
/// its loss, and the component gets that added back, so a loss lowers it by exactly its amount.
pub proof fn lemma_settlement_arithmetic(state: VectorView, p: ProjectionView, tag: Seq<char>, gains: Seq<u128>,
    losses: Seq<u128>, settled_at: u64, updated_at: u64, i: int)
    requires
        p.projected_components.len() == gains.len(),
        p.projected_components.len() == losses.len(),
        p.projected_components.len() == state.components.len(),
        0 <= i < state.components.len(),
        p.projected_components[i] + gains[i] <= u128::MAX,
        losses[i] <= p.projected_components[i] + gains[i],
        state.components[i] + p.projected_components[i] + gains[i] - losses[i] <= u128::MAX,
    ensures ({
        let s = reconstructed_view(state, p, tag, gains, losses, settled_at, updated_at);
        &&& s.projection matches Some(q) && q.settled_components[i] == p.projected_components[i] + gains[i] - losses[i]
        &&& s.components[i] == state.components[i] + p.projected_components[i] + gains[i] - losses[i]
        &&& s.components.len() == state.components.len()
    }),
{
}

/// A settlement is refused exactly for a loss larger than its principal plus gain: losses up
/// to that amount, the whole of it included, are accepted.
pub proof fn lemma_loss_limit(principal: Seq<u128>, gains: Seq<u128>, losses: Seq<u128>)
    requires
        principal.len() == gains.len(), principal.len() == losses.len(),
        forall|i: int| 0 <= i < principal.len() ==> #[trigger] principal[i] + gains[i] <= u128::MAX,
    ensures
        loss_exceeds(principal, gains, losses)
            <==> exists|i: int| 0 <= i < principal.len() && #[trigger] losses[i] > principal[i] + gains[i],
{
    if loss_exceeds(principal, gains, losses) {
        let i = choose|i: int| 0 <= i < principal.len() && #[trigger] losses[i] > settled_gross(principal, gains, i);
        assert(losses[i] > principal[i] + gains[i]);
    }
    if exists|i: int| 0 <= i < principal.len() && #[trigger] losses[i] > principal[i] + gains[i] {
        let i = choose|i: int| 0 <= i < principal.len() && #[trigger] losses[i] > principal[i] + gains[i];
        assert(principal[i] + gains[i] <= u128::MAX);
        assert(losses[i] > settled_gross(principal, gains, i));
    }
}

} // verus!
