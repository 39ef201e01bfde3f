use vstd::prelude::*;
use vstd::string::StringExecFns;
use crate::checked::{checked_drain, checked_origin_create, checked_project, checked_reconstruct, checked_transfer};
use crate::engine::{components_fit, KernelEngine};
use crate::error::KernelXError;
use crate::origin::find_valid_nonce;
use crate::reconstruction::SettlementOutcome;
use crate::state::{VectorStateV1, VectorView};
use crate::storage::{state_views, StateStore};
use crate::wallet::WalletContext;
use crate::certification::certification_of;
use crate::engine::{drained_state, origin_state, transferred};
use crate::origin::origin_valid;
use crate::projection::projected_view;
use crate::reconstruction::reconstructed_view;
use crate::strmap::{lookup, sorted_insert};
use crate::transfer::{credited, debited};
use crate::acceptance::{event_ready, lemma_trimmed_nonblank, log_has_room, state_valid};
use crate::checked::{sum_fits, drain_refusal, origin_refusal, project_refusal, reconstruct_refusal, transfer_refusal,
    origin_ready, reconstruct_ready, stored_ready, transfer_ready};
use crate::state::sum_u128;
use crate::storage::EventStore;
use crate::strmap::{lemma_insert_len, lemma_insert_sorted, lemma_lookup_insert};
use crate::text::trimmed;

verus! {

/// `after` is `st` with an origin vector stored under `id`, as created from these inputs.
pub open spec fn origin_step(st: Seq<(Seq<char>, VectorView)>, after: Seq<(Seq<char>, VectorView)>, id: Seq<char>,
    owner: Seq<char>, space: Seq<char>, components: Seq<u128>, seed: Seq<char>, nonce: u64, difficulty: u32) -> bool
{
    exists|u: VectorView| #![trigger sorted_insert(st, id, u)]
        u == origin_state(id, owner, space, components, seed, nonce, difficulty, u.created_at_ms, u.certification.last_checked_at_ms)
        && after == sorted_insert(st, id, u)
}

/// `after` is `st` after a transfer of `amount` from `from` to `to`.
pub open spec fn transfer_step(st: Seq<(Seq<char>, VectorView)>, after: Seq<(Seq<char>, VectorView)>, from: Seq<char>,
    to: Seq<char>, amount: Seq<u128>) -> bool
{
    &&& lookup(st, from) matches Some(a0)
    &&& lookup(st, to) matches Some(b0)
    &&& exists|a: VectorView, b: VectorView| #![trigger crate::checked::transfer_stored(st, from, to, a, b)]
        a == transferred(a0, debited(a0.components, amount), a.certification.last_checked_at_ms)
        && b == transferred(b0, credited(b0.components, amount), b.certification.last_checked_at_ms)
        && after == crate::checked::transfer_stored(st, from, to, a, b)
}

/// `after` is `st` after `id` is drained by `basis_points`.
pub open spec fn drain_step(st: Seq<(Seq<char>, VectorView)>, after: Seq<(Seq<char>, VectorView)>, id: Seq<char>,
    basis_points: u16) -> bool
{
    &&& lookup(st, id) matches Some(s0)
    &&& exists|u: VectorView| #![trigger sorted_insert(st, id, u)]
        u == drained_state(s0, basis_points, u.certification.last_checked_at_ms, u.updated_at_ms)
        && after == sorted_insert(st, id, u)
}

/// `after` is `st` after `projected` of `id` is moved into escrow `escrow`.
pub open spec fn project_step(st: Seq<(Seq<char>, VectorView)>, after: Seq<(Seq<char>, VectorView)>, id: Seq<char>,
    projected: Seq<u128>, escrow: Seq<char>) -> bool
{
    &&& lookup(st, id) matches Some(s0)
    &&& exists|u: VectorView| #![trigger sorted_insert(st, id, u)]
        u == (VectorView {
            certification: certification_of(u.components, s0.certification.threshold, true, true,
                u.certification.last_checked_at_ms),
            ..projected_view(s0, projected, escrow, u.updated_at_ms)
        })
        && after == sorted_insert(st, id, u)
}

/// `after` is `st` after the projection of `id` is settled with these gains and losses.
pub open spec fn reconstruct_step(st: Seq<(Seq<char>, VectorView)>, after: Seq<(Seq<char>, VectorView)>, id: Seq<char>,
    tag: Seq<char>, gains: Seq<u128>, losses: Seq<u128>) -> bool
{
    &&& lookup(st, id) matches Some(s0)
    &&& s0.projection matches Some(p)
    &&& exists|u: VectorView, at: u64| #![trigger sorted_insert(st, id, u), reconstructed_view(s0, p, tag, gains, losses, at, u.updated_at_ms)]
        u == (VectorView {
            certification: certification_of(u.components, s0.certification.threshold, true, true,
                u.certification.last_checked_at_ms),
            ..reconstructed_view(s0, p, tag, gains, losses, at, u.updated_at_ms)
        })
        && after == sorted_insert(st, id, u)
}

/// `n` is the first nonce below one million that solves the origin puzzle of `seed` at difficulty one.
pub open spec fn first_nonce(seed: Seq<char>, n: u64) -> bool {
    n < 1_000_000 && origin_valid(seed, n, 1) && forall|m: u64| m < n ==> !origin_valid(seed, m, 1)
}

/// No nonce below one million solves the origin puzzle of `seed` at difficulty one.
pub open spec fn no_nonce(seed: Seq<char>) -> bool {
    forall|m: u64| m < 1_000_000 ==> !origin_valid(seed, m, 1)
}

/// The stored states of the basic flow, from `st` through `e1` .. `e5` to `after`: two origin
/// vectors owned by `owner_a` and `owner_b`, a transfer between them, a drain of the first, a
/// projection of the second and the settlement of that projection.
pub open spec fn basic_flow_run(st: Seq<(Seq<char>, VectorView)>, e1: Seq<(Seq<char>, VectorView)>,
    e2: Seq<(Seq<char>, VectorView)>, e3: Seq<(Seq<char>, VectorView)>, e4: Seq<(Seq<char>, VectorView)>,
    e5: Seq<(Seq<char>, VectorView)>, after: Seq<(Seq<char>, VectorView)>, owner_a: Seq<char>, owner_b: Seq<char>,
    nonce_a: u64, nonce_b: u64) -> bool
{
    &&& first_nonce("seed-a"@, nonce_a)
    &&& first_nonce("seed-b"@, nonce_b)
    &&& origin_step(st, e1, "v-a"@, owner_a, "space-1"@, seq![1000u128, 2000u128], "seed-a"@, nonce_a, 1)
    &&& origin_step(e1, e2, "v-b"@, owner_b, "space-1"@, seq![50u128, 75u128], "seed-b"@, nonce_b, 1)
    &&& transfer_step(e2, e3, "v-a"@, "v-b"@, seq![250u128, 250u128])
    &&& drain_step(e3, e4, "v-a"@, 100)
    &&& project_step(e4, e5, "v-b"@, seq![10u128, 10u128], "escrow-1"@)
    &&& reconstruct_step(e5, after, "v-b"@, "settled"@, seq![2u128, 1u128], seq![0u128, 0u128])
}

proof fn lemma_small_pair(s: Seq<u128>)
    requires s.len() == 2, s[0] <= 0xFFFF_FFFF, s[1] <= 0xFFFF_FFFF,
    ensures sum_fits(s), components_fit(s), sum_u128(s) == s[0] + s[1],
{
    assert(s.drop_last().drop_last() =~= Seq::<u128>::empty());
    assert(s.drop_last().last() == s[0]);
    reveal_with_fuel(sum_u128, 3);
}

proof fn lemma_flow_names()
    ensures
        "v-a"@ != "v-b"@,
        trimmed("v-a"@).len() > 0,
        trimmed("v-b"@).len() > 0,
        trimmed("space-1"@).len() > 0,
{
    reveal_strlit("v-a");
    reveal_strlit("v-b");
    reveal_strlit("space-1");
    assert("v-a"@[2] != "v-b"@[2]);
    lemma_trimmed_nonblank("v-a"@);
    lemma_trimmed_nonblank("v-b"@);
    lemma_trimmed_nonblank("space-1"@);
}

proof fn lemma_hex_key_nonblank(s: Seq<char>)
    requires
        s.len() == 64,
        forall|i: int| 0 <= i < 64 ==> {
            let c = #[trigger] s[i] as u32;
            (48 <= c <= 57) || (97 <= c <= 102)
        },
    ensures trimmed(s).len() > 0,
{
    let c = s[0] as u32;
    assert((48 <= c <= 57) || (97 <= c <= 102));
    lemma_trimmed_nonblank(s);
}

/// The vectors left by a simulation and the number of records it stored.
#[derive(Clone, Debug)]
pub struct SimulationReport {
    pub vectors: Vec<VectorStateV1>,
    pub records: usize,
}

/// Runs scripted flows against an engine of its own.
pub struct SimulationHarness {
    pub engine: KernelEngine,
}

impl SimulationHarness {
    /// A harness over an empty engine.
    pub fn new() -> (r: Self)
        ensures r.engine.wf(), r.engine.store.state_entries().len() == 0,
    {
        SimulationHarness { engine: KernelEngine::new() }
    }

    /// A fresh wallet.
    pub fn wallet(&self) -> (w: WalletContext)
        ensures w.wf(),
    {
        WalletContext::generate()
    }

    /// Creates two origin vectors owned by fresh wallets, then transfers between them,
    /// drains one, projects the other and settles the projection; reports the stored
    /// vectors and the number of records.
    pub fn basic_flow(&mut self) -> (r: Result<SimulationReport, KernelXError>)
        requires old(self).engine.wf(),
        ensures
            final(self).engine.wf(),
            no_nonce("seed-a"@) ==> (r matches Err(KernelXError::OriginRejected) && final(self).engine == old(self).engine),
            !no_nonce("seed-a"@) && no_nonce("seed-b"@) ==>
                (r matches Err(KernelXError::OriginRejected) && final(self).engine == old(self).engine),
            !no_nonce("seed-a"@) && !no_nonce("seed-b"@) && old(self).engine.store.event_log().len() + 16 < usize::MAX
                ==> r is Ok,
            old(self).engine.store.state_entries().len() == 0 ==> (r matches Ok(rep) ==> rep.vectors@.len() == 2),
            r is Ok ==> exists|e1: Seq<(Seq<char>, VectorView)>, e2: Seq<(Seq<char>, VectorView)>,
                e3: Seq<(Seq<char>, VectorView)>, e4: Seq<(Seq<char>, VectorView)>, e5: Seq<(Seq<char>, VectorView)>,
                owner_a: Seq<char>, owner_b: Seq<char>, nonce_a: u64, nonce_b: u64|
                #[trigger] basic_flow_run(old(self).engine.store.state_entries(), e1, e2, e3, e4, e5,
                    final(self).engine.store.state_entries(), owner_a, owner_b, nonce_a, nonce_b),
            r matches Ok(rep) ==> {
                &&& state_views(rep.vectors@) == final(self).engine.store.state_entries().map_values(|e: (Seq<char>, VectorView)| e.1)
                &&& rep.records == final(self).engine.store.record_entries().len()
            },
    {
        let wallet_a = WalletContext::generate();
        let wallet_b = WalletContext::generate();
        let nonce_a = match find_valid_nonce("seed-a", 1, 1_000_000) {
            Some(n) => n,
            None => { return Err(KernelXError::OriginRejected); }
        };
        let nonce_b = match find_valid_nonce("seed-b", 1, 1_000_000) {
            Some(n) => n,
            None => { return Err(KernelXError::OriginRejected); }
        };
        let ghost st = self.engine.store.state_entries();
        let ghost n0 = self.engine.store.event_log().len();
        let owner_a = wallet_a.public_key_hex();
        let owner_b = wallet_b.public_key_hex();
        let comps_a: Vec<u128> = vec![1000, 2000];
        let comps_b: Vec<u128> = vec![50, 75];
        assert(comps_a@ == seq![1000u128, 2000u128]);
        assert(comps_b@ == seq![50u128, 75u128]);
        proof {
            lemma_flow_names();
            lemma_hex_key_nonblank(owner_a@);
            lemma_hex_key_nonblank(owner_b@);
            lemma_small_pair(comps_a@);
            lemma_small_pair(comps_b@);
            reveal_strlit("seed-a");
        }
        let ua = checked_origin_create(&mut self.engine, String::from_str("v-a"), owner_a.clone(),
            String::from_str("space-1"), comps_a, String::from_str("seed-a"), nonce_a, 1)?;
        let ghost e1 = self.engine.store.state_entries();
        let ub = checked_origin_create(&mut self.engine, String::from_str("v-b"), owner_b.clone(),
            String::from_str("space-1"), comps_b, String::from_str("seed-b"), nonce_b, 1)?;
        let ghost e2 = self.engine.store.state_entries();
        let amount: Vec<u128> = vec![250, 250];
        assert(amount@ == seq![250u128, 250u128]);
        assert(components_fit(amount@));
        proof {
            lemma_lookup_insert(st, "v-a"@, ua@, "v-a"@);
            lemma_lookup_insert(e1, "v-b"@, ub@, "v-a"@);
            lemma_lookup_insert(e1, "v-b"@, ub@, "v-b"@);
            let dv = debited(ua@.components, amount@);
            let cv = credited(ub@.components, amount@);
            assert(dv[0] == 750 && dv[1] == 1750);
            assert(cv[0] == 300 && cv[1] == 325);
            lemma_small_pair(dv);
            lemma_small_pair(cv);
            lemma_small_pair(ua@.components);
            assert(!crate::projection::exceeds_balance(amount@, ua@.components));
            assert(state_valid(ua@) && state_valid(ub@));
            assert(transfer_refusal(e2, "v-a"@, "v-b"@, amount@) is None);
            assert(transfer_ready(e2, "v-a"@, "v-b"@, amount@));
        }
        let (ta, tb) = checked_transfer(&mut self.engine, "v-a", "v-b", amount)?;
        let ghost e3 = self.engine.store.state_entries();
        proof {
            let m = sorted_insert(e2, "v-a"@, ta@);
            lemma_lookup_insert(m, "v-b"@, tb@, "v-a"@);
            lemma_lookup_insert(m, "v-b"@, tb@, "v-b"@);
            lemma_lookup_insert(e2, "v-a"@, ta@, "v-a"@);
            lemma_small_pair(ta@.components);
            crate::engine::lemma_drain_never_increases(ta@.components, 100, ta@.certification.auth_ratio, ta@.certification.threshold);
            let dr = crate::engine::drained(ta@.components, 100, ta@.certification.auth_ratio, ta@.certification.threshold);
            assert(dr[0] <= ta@.components[0] && dr[1] <= ta@.components[1]);
            assert(components_fit(dr));
            assert(drain_refusal(e3, "v-a"@, 100) is None);
            assert(event_ready(ta@));
            assert(stored_ready(e3, "v-a"@));
        }
        let da = checked_drain(&mut self.engine, "v-a", 100)?;
        let ghost e4 = self.engine.store.state_entries();
        let projected: Vec<u128> = vec![10, 10];
        assert(projected@ == seq![10u128, 10u128]);
        assert(components_fit(projected@));
        proof {
            lemma_lookup_insert(e3, "v-a"@, da@, "v-b"@);
            lemma_small_pair(tb@.components);
            assert(!crate::projection::exceeds_balance(projected@, tb@.components));
            assert(project_refusal(e4, "v-b"@, projected@) is None);
            assert(event_ready(tb@));
            assert(stored_ready(e4, "v-b"@));
        }
        let pb = checked_project(&mut self.engine, "v-b", projected, String::from_str("escrow-1"))?;
        let ghost e5 = self.engine.store.state_entries();
        let gains: Vec<u128> = vec![2, 1];
        let losses: Vec<u128> = vec![0, 0];
        assert(gains@ == seq![2u128, 1u128]);
        assert(losses@ == seq![0u128, 0u128]);
        proof {
            lemma_lookup_insert(e4, "v-b"@, pb@, "v-b"@);
            let p = pb@.projection->0;
            assert(p.projected_components == projected@);
            let rem = pb@.components;
            assert(rem[0] == 290 && rem[1] == 315);
            let sv = crate::reconstruction::settled_values(p.projected_components, gains@, losses@);
            assert(sv[0] == 12 && sv[1] == 11);
            let rs = crate::reconstruction::restored_components(rem, sv);
            assert(rs[0] == 302 && rs[1] == 326);
            lemma_small_pair(rs);
            lemma_small_pair(rem);
            assert(!crate::reconstruction::loss_exceeds(p.projected_components, gains@, losses@));
            assert(reconstruct_refusal(e5, "v-b"@, gains@, losses@) is None);
            assert(event_ready(pb@));
            assert(reconstruct_ready(e5, "v-b"@, gains@, losses@));
        }
        let outcome = SettlementOutcome { outcome_tag: String::from_str("settled"), gains, losses };
        assert(components_fit(outcome.gains@) && components_fit(outcome.losses@));
        let rb = checked_reconstruct(&mut self.engine, "v-b", outcome)?;
        proof {
            let after = self.engine.store.state_entries();
            assert(origin_step(st, e1, "v-a"@, owner_a@, "space-1"@, seq![1000u128, 2000u128], "seed-a"@, nonce_a, 1)) by {
                assert(e1 == sorted_insert(st, "v-a"@, ua@));
            }
            assert(origin_step(e1, e2, "v-b"@, owner_b@, "space-1"@, seq![50u128, 75u128], "seed-b"@, nonce_b, 1)) by {
                assert(e2 == sorted_insert(e1, "v-b"@, ub@));
            }
            assert(transfer_step(e2, e3, "v-a"@, "v-b"@, seq![250u128, 250u128])) by {
                assert(e3 == crate::checked::transfer_stored(e2, "v-a"@, "v-b"@, ta@, tb@));
            }
            assert(drain_step(e3, e4, "v-a"@, 100)) by {
                assert(e4 == sorted_insert(e3, "v-a"@, da@));
            }
            assert(project_step(e4, e5, "v-b"@, seq![10u128, 10u128], "escrow-1"@)) by {
                assert(e5 == sorted_insert(e4, "v-b"@, pb@));
            }
            assert(reconstruct_step(e5, after, "v-b"@, "settled"@, seq![2u128, 1u128], seq![0u128, 0u128])) by {
                assert(after == sorted_insert(e5, "v-b"@, rb@));
            }
            assert(basic_flow_run(st, e1, e2, e3, e4, e5, after, owner_a@, owner_b@, nonce_a, nonce_b));
            if st.len() == 0 {
                let m = sorted_insert(e2, "v-a"@, ta@);
                lemma_insert_len(st, "v-a"@, ua@);
                lemma_lookup_insert(st, "v-a"@, ua@, "v-b"@);
                lemma_insert_len(e1, "v-b"@, ub@);
                lemma_insert_len(e2, "v-a"@, ta@);
                lemma_insert_sorted(e2, "v-a"@, ta@);
                lemma_lookup_insert(e2, "v-a"@, ta@, "v-b"@);
                lemma_insert_len(m, "v-b"@, tb@);
                lemma_insert_len(e3, "v-a"@, da@);
                lemma_lookup_insert(e3, "v-a"@, da@, "v-a"@);
                lemma_insert_len(e4, "v-b"@, pb@);
                lemma_lookup_insert(e4, "v-b"@, pb@, "v-b"@);
                lemma_insert_len(e5, "v-b"@, rb@);
                lemma_lookup_insert(e5, "v-b"@, rb@, "v-b"@);
                assert(after.len() == 2);
            }
        }
        let vectors = self.engine.query_vectors()?;
        proof { assert(state_views(vectors@).len() == vectors@.len()); }
        let records = self.engine.query_records()?;
        proof { assert(crate::storage::record_views(records@).len() == records@.len()); }
        Ok(SimulationReport { vectors, records: records.len() })
    }
}

impl Default for SimulationHarness {
    fn default() -> (r: Self)
        ensures r.engine.wf(), r.engine.store.state_entries().len() == 0,
    {
        Self::new()
    }
}

} // verus!
