use vstd::prelude::*;
use crate::checked::{checked_certify, checked_drain, checked_origin_create, checked_project, checked_reconstruct,
    checked_transfer, drain_overflows, is_overflow, settlement_overflows, state_overflows, sum_fits, transfer_overflows};
use crate::engine::{certified_state, components_fit, drained_state, max_updated, origin_state, transferred, KernelEngine};
use crate::certification::certification_of;
use crate::projection::{exceeds_balance, projected_view};
use crate::reconstruction::{loss_exceeds, reconstructed_view};
use crate::stateroot::state_set_root;
use crate::error::KernelXError;
use crate::origin::origin_valid;
use crate::record::{RecordView, VectorRecordV1};
use crate::reconstruction::SettlementOutcome;
use crate::replay::{replay_result_is, replay_spec, ReplayResult};
use crate::state::{StateRoot, VectorStateV1, VectorView};
use crate::storage::{record_views, state_views, opt_view, EventStore, StateStore};
use crate::strmap::{lookup, sorted_insert};
use crate::transfer::{credited, debited};
use crate::wallet::WalletContext;
use crate::acceptance::log_has_room;
use crate::checked::{certify_refusal, drain_refusal, origin_ready, origin_refusal, project_refusal, reconstruct_ready,
    reconstruct_refusal, stored_ready, transfer_ready, transfer_refusal};

verus! {

/// A kernel over an in-memory store, with the operations of the engine. Operations whose
/// arithmetic would overflow are refused with "arithmetic overflow".
pub struct VectorKernel {
    pub engine: KernelEngine,
}

impl VectorKernel {
    pub open spec fn wf(&self) -> bool {
        self.engine.wf()
    }

    /// A kernel with an empty store.
    pub fn new() -> (r: Self)
        ensures
            r.wf(),
            r.engine.store.state_entries().len() == 0,
            r.engine.store.record_entries().len() == 0,
            r.engine.store.event_log().len() == 0,
    {
        VectorKernel { engine: KernelEngine::new() }
    }

    /// A fresh wallet.
    pub fn wallet(&self) -> (w: WalletContext)
        ensures w.wf(),
    {
        WalletContext::generate()
    }

    /// Creates and stores a certified origin vector.
    pub fn origin_create(&mut self, vector_id: String, owner_pubkey: String, space_id: String, components: Vec<u128>,
        seed: String, nonce: u64, difficulty: u32) -> (r: Result<VectorStateV1, KernelXError>)
        requires old(self).wf(),
        ensures
            final(self).wf(), final(self).engine.consensus == old(self).engine.consensus,
            origin_refusal(components@, seed@, nonce, difficulty) is None && origin_ready(vector_id@, owner_pubkey@, space_id@, components@)
                && log_has_room(old(self).engine.store.event_log()) ==> r is Ok,
            !sum_fits(components@) ==> (r matches Err(e) && is_overflow(e) && final(self).engine == old(self).engine),
            sum_fits(components@) && !origin_valid(seed@, nonce, difficulty) ==>
                (r matches Err(KernelXError::OriginRejected) && final(self).engine.store == old(self).engine.store),
            r matches Ok(u) ==> {
                &&& u@ == origin_state(vector_id@, owner_pubkey@, space_id@, components@, seed@, nonce, difficulty,
                    u@.created_at_ms, u@.certification.last_checked_at_ms)
                &&& final(self).engine.store.state_entries() == sorted_insert(old(self).engine.store.state_entries(), vector_id@, u@)
            },
    {
        checked_origin_create(&mut self.engine, vector_id, owner_pubkey, space_id, components, seed, nonce, difficulty)
    }

    /// Moves an amount between two stored vectors.
    pub fn transfer(&mut self, from_id: &str, to_id: &str, amount: Vec<u128>) -> (r: Result<(VectorStateV1, VectorStateV1), KernelXError>)
        requires old(self).wf(), components_fit(amount@),
        ensures
            final(self).wf(), final(self).engine.consensus == old(self).engine.consensus,
            transfer_refusal(old(self).engine.store.state_entries(), from_id@, to_id@, amount@) is None
                && transfer_ready(old(self).engine.store.state_entries(), from_id@, to_id@, amount@)
                && log_has_room(old(self).engine.store.event_log()) ==> r is Ok,
            transfer_overflows(old(self).engine.store.state_entries(), from_id@, to_id@, amount@) ==>
                (r matches Err(e) && is_overflow(e) && final(self).engine == old(self).engine),
            from_id@ == to_id@ ==> final(self).engine.store == old(self).engine.store,
            !transfer_overflows(old(self).engine.store.state_entries(), from_id@, to_id@, amount@) ==> (
                (lookup(old(self).engine.store.state_entries(), from_id@) is None || lookup(old(self).engine.store.state_entries(), to_id@) is None)
                    ==> (r matches Err(KernelXError::VectorNotFound) && final(self).engine.store == old(self).engine.store)),
            !transfer_overflows(old(self).engine.store.state_entries(), from_id@, to_id@, amount@) ==> (
                lookup(old(self).engine.store.state_entries(), from_id@) matches Some(f) ==> (
                    lookup(old(self).engine.store.state_entries(), to_id@) matches Some(t) ==> (
                        ((f.components.len() != t.components.len() || amount@.len() != f.components.len()) ==>
                            (r matches Err(KernelXError::DimensionMismatch) && final(self).engine.store == old(self).engine.store))
                        && ((f.components.len() == t.components.len() && amount@.len() == f.components.len()
                            && exceeds_balance(amount@, f.components)) ==>
                            (r matches Err(KernelXError::InsufficientBalance) && final(self).engine.store == old(self).engine.store))))),
            r matches Ok((a, b)) ==> {
                &&& lookup(old(self).engine.store.state_entries(), from_id@) matches Some(f)
                &&& lookup(old(self).engine.store.state_entries(), to_id@) matches Some(t)
                &&& a@ == transferred(f, debited(f.components, amount@), a@.certification.last_checked_at_ms)
                &&& b@ == transferred(t, credited(t.components, amount@), b@.certification.last_checked_at_ms)
                &&& final(self).engine.store.state_entries()
                    == crate::checked::transfer_stored(old(self).engine.store.state_entries(), from_id@, to_id@, a@, b@)
            },
    {
        checked_transfer(&mut self.engine, from_id, to_id, amount)
    }

    /// Drains a basis-point fee from a stored vector.
    pub fn drain(&mut self, vector_id: &str, basis_points: u16) -> (r: Result<VectorStateV1, KernelXError>)
        requires old(self).wf(),
        ensures
            final(self).wf(), final(self).engine.consensus == old(self).engine.consensus,
            drain_refusal(old(self).engine.store.state_entries(), vector_id@, basis_points) is None
                && stored_ready(old(self).engine.store.state_entries(), vector_id@)
                && log_has_room(old(self).engine.store.event_log()) ==> r is Ok,
            drain_overflows(old(self).engine.store.state_entries(), vector_id@, basis_points) ==>
                (r matches Err(e) && is_overflow(e) && final(self).engine == old(self).engine),
            lookup(old(self).engine.store.state_entries(), vector_id@) is None ==>
                (r matches Err(KernelXError::VectorNotFound) && final(self).engine.store == old(self).engine.store),
            !drain_overflows(old(self).engine.store.state_entries(), vector_id@, basis_points) && basis_points > 10000
                && lookup(old(self).engine.store.state_entries(), vector_id@) is Some ==>
                (r matches Err(KernelXError::Rejected(m)) && m@ == "drain basis points must be <= 10000"@
                    && final(self).engine.store == old(self).engine.store),
            r matches Ok(u) ==> {
                &&& lookup(old(self).engine.store.state_entries(), vector_id@) matches Some(s)
                &&& u@ == drained_state(s, basis_points, u@.certification.last_checked_at_ms, u@.updated_at_ms)
                &&& u@.vector_id == vector_id@
                &&& final(self).engine.store.state_entries() == sorted_insert(old(self).engine.store.state_entries(), vector_id@, u@)
            },
    {
        checked_drain(&mut self.engine, vector_id, basis_points)
    }

    /// Moves a slice of a stored vector into escrow.
    pub fn project(&mut self, vector_id: &str, projected_components: Vec<u128>, escrow_id: String) -> (r: Result<VectorStateV1, KernelXError>)
        requires old(self).wf(), components_fit(projected_components@),
        ensures
            final(self).wf(), final(self).engine.consensus == old(self).engine.consensus,
            project_refusal(old(self).engine.store.state_entries(), vector_id@, projected_components@) is None
                && stored_ready(old(self).engine.store.state_entries(), vector_id@)
                && log_has_room(old(self).engine.store.event_log()) ==> r is Ok,
            state_overflows(old(self).engine.store.state_entries(), vector_id@) ==>
                (r matches Err(e) && is_overflow(e) && final(self).engine == old(self).engine),
            lookup(old(self).engine.store.state_entries(), vector_id@) is None ==>
                (r matches Err(KernelXError::VectorNotFound) && final(self).engine.store == old(self).engine.store),
            !state_overflows(old(self).engine.store.state_entries(), vector_id@) ==>
                (lookup(old(self).engine.store.state_entries(), vector_id@) matches Some(s) ==> (
                    (projected_components@.len() != s.components.len() ==>
                        (r matches Err(KernelXError::DimensionMismatch) && final(self).engine.store == old(self).engine.store))
                    && (projected_components@.len() == s.components.len() && exceeds_balance(projected_components@, s.components) ==>
                        (r matches Err(KernelXError::InsufficientBalance) && final(self).engine.store == old(self).engine.store)))),
            r matches Ok(u) ==> {
                &&& u@.vector_id == vector_id@
                &&& lookup(old(self).engine.store.state_entries(), vector_id@) matches Some(s)
                &&& u@ == (VectorView {
                        certification: certification_of(u@.components, s.certification.threshold, true, true,
                            u@.certification.last_checked_at_ms),
                        ..projected_view(s, projected_components@, escrow_id@, u@.updated_at_ms)
                    })
                &&& final(self).engine.store.state_entries() == sorted_insert(old(self).engine.store.state_entries(), vector_id@, u@)
            },
    {
        checked_project(&mut self.engine, vector_id, projected_components, escrow_id)
    }

    /// Settles a projected vector.
    pub fn reconstruct(&mut self, vector_id: &str, outcome: SettlementOutcome) -> (r: Result<VectorStateV1, KernelXError>)
        requires old(self).wf(), components_fit(outcome.gains@), components_fit(outcome.losses@),
        ensures
            final(self).wf(), final(self).engine.consensus == old(self).engine.consensus,
            reconstruct_refusal(old(self).engine.store.state_entries(), vector_id@, outcome.gains@, outcome.losses@) is None
                && reconstruct_ready(old(self).engine.store.state_entries(), vector_id@, outcome.gains@, outcome.losses@)
                && log_has_room(old(self).engine.store.event_log()) ==> r is Ok,
            settlement_overflows(old(self).engine.store.state_entries(), vector_id@, outcome.gains@, outcome.losses@) ==>
                (r matches Err(e) && is_overflow(e) && final(self).engine == old(self).engine),
            lookup(old(self).engine.store.state_entries(), vector_id@) is None ==>
                (r matches Err(KernelXError::VectorNotFound) && final(self).engine.store == old(self).engine.store),
            !settlement_overflows(old(self).engine.store.state_entries(), vector_id@, outcome.gains@, outcome.losses@) ==>
                (lookup(old(self).engine.store.state_entries(), vector_id@) matches Some(s) ==> match s.projection {
                    None => r matches Err(KernelXError::SettlementRejected(m)) && m@ == "missing projection"@
                        && final(self).engine.store == old(self).engine.store,
                    Some(p) => {
                        let pc = p.projected_components;
                        &&& !(pc.len() == outcome.gains@.len() && pc.len() == outcome.losses@.len() && pc.len() == s.components.len())
                            ==> (r matches Err(KernelXError::DimensionMismatch) && final(self).engine.store == old(self).engine.store)
                        &&& (pc.len() == outcome.gains@.len() && pc.len() == outcome.losses@.len() && pc.len() == s.components.len()
                            && loss_exceeds(pc, outcome.gains@, outcome.losses@))
                            ==> (r matches Err(KernelXError::SettlementRejected(m)) && m@ == "loss exceeds projected value"@
                                && final(self).engine.store == old(self).engine.store)
                    },
                }),
            r matches Ok(u) ==> {
                &&& u@.vector_id == vector_id@
                &&& lookup(old(self).engine.store.state_entries(), vector_id@) matches Some(s)
                &&& s.projection matches Some(p)
                &&& u@.projection matches Some(up) && up.settlement_at_ms matches Some(at)
                    && u@ == (VectorView {
                        certification: certification_of(u@.components, s.certification.threshold, true, true,
                            u@.certification.last_checked_at_ms),
                        ..reconstructed_view(s, p, outcome.outcome_tag@, outcome.gains@, outcome.losses@, at, u@.updated_at_ms)
                    })
                &&& final(self).engine.store.state_entries() == sorted_insert(old(self).engine.store.state_entries(), vector_id@, u@)
            },
    {
        checked_reconstruct(&mut self.engine, vector_id, outcome)
    }

    /// Re-certifies a stored vector.
    pub fn certify(&mut self, vector_id: &str) -> (r: Result<VectorStateV1, KernelXError>)
        requires old(self).wf(),
        ensures
            final(self).wf(), final(self).engine.consensus == old(self).engine.consensus,
            certify_refusal(old(self).engine.store.state_entries(), vector_id@) is None
                && stored_ready(old(self).engine.store.state_entries(), vector_id@)
                && log_has_room(old(self).engine.store.event_log()) ==> r is Ok,
            state_overflows(old(self).engine.store.state_entries(), vector_id@) ==>
                (r matches Err(e) && is_overflow(e) && final(self).engine == old(self).engine),
            lookup(old(self).engine.store.state_entries(), vector_id@) is None ==>
                (r matches Err(KernelXError::VectorNotFound) && final(self).engine.store == old(self).engine.store),
            r matches Ok(u) ==> {
                &&& lookup(old(self).engine.store.state_entries(), vector_id@) matches Some(s)
                &&& u@ == certified_state(s, u@.certification.last_checked_at_ms, u@.updated_at_ms)
                &&& u@.vector_id == vector_id@
                &&& final(self).engine.store.state_entries() == sorted_insert(old(self).engine.store.state_entries(), vector_id@, u@)
            },
    {
        checked_certify(&mut self.engine, vector_id)
    }

    /// The stored state of a vector.
    pub fn query(&self, vector_id: &str) -> (r: Result<Option<VectorStateV1>, KernelXError>)
        ensures r is Ok, opt_view(r->Ok_0) == lookup(self.engine.store.state_entries(), vector_id@),
    {
        self.engine.query_vector(vector_id)
    }

    /// Every stored state, by vector id.
    pub fn query_vectors(&self) -> (r: Result<Vec<VectorStateV1>, KernelXError>)
        ensures r is Ok,
            state_views(r->Ok_0@) == self.engine.store.state_entries().map_values(|e: (Seq<char>, VectorView)| e.1),
    {
        self.engine.query_vectors()
    }

    /// Every stored record, by record id.
    pub fn query_records(&self) -> (r: Result<Vec<VectorRecordV1>, KernelXError>)
        ensures r is Ok,
            record_views(r->Ok_0@) == self.engine.store.record_entries().map_values(|e: (Seq<char>, RecordView)| e.1),
    {
        self.engine.query_records()
    }

    /// Replays every stored event.
    pub fn replay_canonical_history(&self) -> (r: Result<ReplayResult, KernelXError>)
        ensures
            match replay_spec(self.engine.store.event_log()) {
                Ok((st, applied, clock)) => r is Ok && replay_result_is(r->Ok_0, st, applied, clock),
                Err(m) => crate::error::invalid_state(r, m),
            },
    {
        self.engine.replay_canonical_history()
    }

    /// The state root of the stored states.
    pub fn current_state_root(&self) -> (r: Result<StateRoot, KernelXError>)
        ensures
            r is Ok,
            ({
                let states = self.engine.store.state_entries().map_values(|e: (Seq<char>, VectorView)| e.1);
                r->Ok_0@ == state_set_root(states, max_updated(states, states.len()))
            }),
    {
        self.engine.current_state_root()
    }
}

impl Default for VectorKernel {
    fn default() -> (r: Self)
        ensures r.wf(), r.engine.store.state_entries().len() == 0,
    {
        Self::new()
    }
}

} // verus!
