use vstd::prelude::*;
use crate::error::KernelXError;
use crate::strmap::StringMap;
use vstd::string::StringExecFns;

verus! {

/// Operational tag of a vector.
#[derive(Clone, Copy, Debug, PartialEq, Eq, Structural)]
pub enum VectorType {
    Standard,
    Origin,
    Projected,
    Escrow,
    Settlement,
    Locked,
}

/// Lifecycle status of a vector.
#[derive(Clone, Copy, Debug, PartialEq, Eq, Structural)]
pub enum VectorStatus {
    Active,
    Projected,
    Escrowed,
    Settled,
    Archived,
}

pub open spec fn opt_str_view(o: Option<String>) -> Option<Seq<char>> {
    match o {
        Some(s) => Some(s@),
        None => None,
    }
}

/// A copy of an optional string.
pub fn copy_opt_string(o: &Option<String>) -> (r: Option<String>)
    ensures opt_str_view(r) == opt_str_view(*o),
{
    match o {
        Some(s) => Some(s.clone()),
        None => None,
    }
}

/// A copy of a component vector.
pub fn copy_u128s(v: &Vec<u128>) -> (r: Vec<u128>)
    ensures r@ == v@,
{
    let mut out: Vec<u128> = Vec::new();
    let mut i: usize = 0;
    while i < v.len()
        invariant i <= v.len(), out@ == v@.take(i as int),
        decreases v.len() - i,
    {
        out.push(v[i]);
        i += 1;
        assert(out@ =~= v@.take(i as int));
    }
    assert(v@.take(v.len() as int) =~= v@);
    out
}

#[derive(Clone, Debug)]
pub struct CertificationState {
    pub certified: bool,
    pub auth_ratio: u16,
    pub threshold: u16,
    pub last_checked_at_ms: u64,
    pub reason: Option<String>,
}

pub struct CertificationView {
    pub certified: bool,
    pub auth_ratio: u16,
    pub threshold: u16,
    pub last_checked_at_ms: u64,
    pub reason: Option<Seq<char>>,
}

impl View for CertificationState {
    type V = CertificationView;
    open spec fn view(&self) -> CertificationView {
        CertificationView {
            certified: self.certified,
            auth_ratio: self.auth_ratio,
            threshold: self.threshold,
            last_checked_at_ms: self.last_checked_at_ms,
            reason: opt_str_view(self.reason),
        }
    }
}

impl CertificationState {
    pub fn duplicate(&self) -> (r: Self)
        ensures r@ == self@,
    {
        CertificationState {
            certified: self.certified,
            auth_ratio: self.auth_ratio,
            threshold: self.threshold,
            last_checked_at_ms: self.last_checked_at_ms,
            reason: copy_opt_string(&self.reason),
        }
    }
}

#[derive(Clone, Debug)]
pub struct ProjectionState {
    pub escrow_id: String,
    pub projected_components: Vec<u128>,
    pub settled_components: Vec<u128>,
    pub started_at_ms: u64,
    pub settlement_at_ms: Option<u64>,
    pub outcome_tag: Option<String>,
}

pub struct ProjectionView {
    pub escrow_id: Seq<char>,
    pub projected_components: Seq<u128>,
    pub settled_components: Seq<u128>,
    pub started_at_ms: u64,
    pub settlement_at_ms: Option<u64>,
    pub outcome_tag: Option<Seq<char>>,
}

impl View for ProjectionState {
    type V = ProjectionView;
    open spec fn view(&self) -> ProjectionView {
        ProjectionView {
            escrow_id: self.escrow_id@,
            projected_components: self.projected_components@,
            settled_components: self.settled_components@,
            started_at_ms: self.started_at_ms,
            settlement_at_ms: self.settlement_at_ms,
            outcome_tag: opt_str_view(self.outcome_tag),
        }
    }
}

impl ProjectionState {
    pub fn duplicate(&self) -> (r: Self)
        ensures r@ == self@,
    {
        ProjectionState {
            escrow_id: self.escrow_id.clone(),
            projected_components: copy_u128s(&self.projected_components),
            settled_components: copy_u128s(&self.settled_components),
            started_at_ms: self.started_at_ms,
            settlement_at_ms: self.settlement_at_ms,
            outcome_tag: copy_opt_string(&self.outcome_tag),
        }
    }
}

#[derive(Clone, Debug)]
pub struct OriginState {
    pub seed: String,
    pub nonce: u64,
    pub difficulty: u32,
    pub proof_hash: String,
}

pub struct OriginView {
    pub seed: Seq<char>,
    pub nonce: u64,
    pub difficulty: u32,
    pub proof_hash: Seq<char>,
}

impl View for OriginState {
    type V = OriginView;
    open spec fn view(&self) -> OriginView {
        OriginView { seed: self.seed@, nonce: self.nonce, difficulty: self.difficulty, proof_hash: self.proof_hash@ }
    }
}

impl OriginState {
    pub fn duplicate(&self) -> (r: Self)
        ensures r@ == self@,
    {
        OriginState { seed: self.seed.clone(), nonce: self.nonce, difficulty: self.difficulty, proof_hash: self.proof_hash.clone() }
    }
}

pub open spec fn opt_projection_view(o: Option<ProjectionState>) -> Option<ProjectionView> {
    match o {
        Some(p) => Some(p@),
        None => None,
    }
}

pub open spec fn opt_origin_view(o: Option<OriginState>) -> Option<OriginView> {
    match o {
        Some(p) => Some(p@),
        None => None,
    }
}

/// The canonical vector state.
#[derive(Clone, Debug)]
pub struct VectorStateV1 {
    pub schema: String,
    pub vector_id: String,
    pub owner_pubkey: String,
    pub space_id: String,
    pub vector_type: VectorType,
    pub status: VectorStatus,
    pub components: Vec<u128>,
    pub type_metadata: StringMap,
    pub certification: CertificationState,
    pub projection: Option<ProjectionState>,
    pub origin: Option<OriginState>,
    pub version: u64,
    pub created_at_ms: u64,
    pub updated_at_ms: u64,
}

pub struct VectorView {
    pub schema: Seq<char>,
    pub vector_id: Seq<char>,
    pub owner_pubkey: Seq<char>,
    pub space_id: Seq<char>,
    pub vector_type: VectorType,
    pub status: VectorStatus,
    pub components: Seq<u128>,
    pub type_metadata: Seq<(Seq<char>, Seq<char>)>,
    pub certification: CertificationView,
    pub projection: Option<ProjectionView>,
    pub origin: Option<OriginView>,
    pub version: u64,
    pub created_at_ms: u64,
    pub updated_at_ms: u64,
}

impl View for VectorStateV1 {
    type V = VectorView;
    open spec fn view(&self) -> VectorView {
        VectorView {
            schema: self.schema@,
            vector_id: self.vector_id@,
            owner_pubkey: self.owner_pubkey@,
            space_id: self.space_id@,
            vector_type: self.vector_type,
            status: self.status,
            components: self.components@,
            type_metadata: self.type_metadata@,
            certification: self.certification@,
            projection: opt_projection_view(self.projection),
            origin: opt_origin_view(self.origin),
            version: self.version,
            created_at_ms: self.created_at_ms,
            updated_at_ms: self.updated_at_ms,
        }
    }
}

/// One normalized component share `numerator / denominator`.
#[derive(Clone, Debug, PartialEq, Eq, Structural)]
pub struct DirectionShare {
    pub component_index: usize,
    pub numerator: u128,
    pub denominator: u128,
}

/// Canonical state root for kernel-side state snapshots and replay verification.
#[derive(Clone, Debug)]
pub struct StateRoot {
    pub root_hash: String,
    pub event_count: u64,
    pub logical_clock: u64,
}

pub struct StateRootView {
    pub root_hash: Seq<char>,
    pub event_count: u64,
    pub logical_clock: u64,
}

impl View for StateRoot {
    type V = StateRootView;
    open spec fn view(&self) -> StateRootView {
        StateRootView { root_hash: self.root_hash@, event_count: self.event_count, logical_clock: self.logical_clock }
    }
}

impl StateRoot {
    pub fn duplicate(&self) -> (r: Self)
        ensures r@ == self@,
    {
        StateRoot { root_hash: self.root_hash.clone(), event_count: self.event_count, logical_clock: self.logical_clock }
    }
}

/// Sum of a component sequence.
pub open spec fn sum_u128(s: Seq<u128>) -> int
    decreases s.len(),
{
    if s.len() == 0 { 0 } else { sum_u128(s.drop_last()) + s.last() }
}

pub proof fn lemma_sum_nonneg_prefix(s: Seq<u128>, i: int)
    requires 0 <= i <= s.len(),
    ensures 0 <= sum_u128(s.take(i)) <= sum_u128(s),
    decreases s.len(),
{
    if s.len() > 0 {
        if i == s.len() {
            assert(s.take(i) =~= s);
            lemma_sum_nonneg_prefix(s.drop_last(), i - 1);
            assert(s.drop_last().take(i - 1) =~= s.drop_last());
        } else {
            lemma_sum_nonneg_prefix(s.drop_last(), i);
            assert(s.drop_last().take(i) =~= s.take(i));
        }
    }
}

/// A component-wise smaller sequence has a smaller sum.
pub proof fn lemma_sum_le(a: Seq<u128>, b: Seq<u128>)
    requires a.len() == b.len(), forall|i: int| 0 <= i < a.len() ==> a[i] <= b[i],
    ensures sum_u128(a) <= sum_u128(b),
    decreases a.len(),
{
    if a.len() > 0 {
        lemma_sum_le(a.drop_last(), b.drop_last());
    }
}

pub proof fn lemma_sum_zero(s: Seq<u128>)
    ensures (sum_u128(s) == 0) == (forall|i: int| 0 <= i < s.len() ==> s[i] == 0),
    decreases s.len(),
{
    if s.len() > 0 {
        lemma_sum_zero(s.drop_last());
        lemma_sum_nonneg_prefix(s.drop_last(), s.len() - 1);
        assert(s.drop_last().take(s.len() - 1) =~= s.drop_last());
        if sum_u128(s) == 0 {
            assert forall|i: int| 0 <= i < s.len() implies s[i] == 0 by {
                if i < s.len() - 1 { assert(s[i] == s.drop_last()[i]); }
            }
        }
        if forall|i: int| 0 <= i < s.len() ==> s[i] == 0 {
            assert forall|i: int| 0 <= i < s.drop_last().len() implies s.drop_last()[i] == 0 by {
                assert(s[i] == s.drop_last()[i]);
            }
        }
    }
}

pub const STATE_SCHEMA_V1: &'static str = "v.kernelx/VectorStateV1";

impl VectorStateV1 {
    /// The magnitude: the sum of all components.
    pub open spec fn spec_magnitude(&self) -> int {
        sum_u128(self.components@)
    }

    /// A copy with the same contents.
    pub fn duplicate(&self) -> (r: Self)
        ensures r@ == self@,
    {
        VectorStateV1 {
            schema: self.schema.clone(),
            vector_id: self.vector_id.clone(),
            owner_pubkey: self.owner_pubkey.clone(),
            space_id: self.space_id.clone(),
            vector_type: self.vector_type,
            status: self.status,
            components: copy_u128s(&self.components),
            type_metadata: self.type_metadata.duplicate(),
            certification: self.certification.duplicate(),
            projection: match &self.projection { Some(p) => Some(p.duplicate()), None => None },
            origin: match &self.origin { Some(o) => Some(o.duplicate()), None => None },
            version: self.version,
            created_at_ms: self.created_at_ms,
            updated_at_ms: self.updated_at_ms,
        }
    }

    /// Sum of all components.
    pub fn magnitude(&self) -> (m: u128)
        requires self.spec_magnitude() <= u128::MAX,
        ensures m == self.spec_magnitude(),
    {
        let mut total: u128 = 0;
        let mut i: usize = 0;
        while i < self.components.len()
            invariant
                i <= self.components.len(),
                total == sum_u128(self.components@.take(i as int)),
                sum_u128(self.components@) <= u128::MAX,
            decreases self.components.len() - i,
        {
            proof {
                assert(self.components@.take(i + 1).drop_last() =~= self.components@.take(i as int));
                lemma_sum_nonneg_prefix(self.components@, i + 1);
            }
            total = total + self.components[i];
            i += 1;
        }
        assert(self.components@.take(i as int) =~= self.components@);
        total
    }

    /// Whether every component is zero.
    pub fn is_zero(&self) -> (b: bool)
        ensures b == (forall|i: int| 0 <= i < self.components@.len() ==> self.components@[i] == 0),
    {
        let mut i: usize = 0;
        while i < self.components.len()
            invariant
                i <= self.components.len(),
                forall|j: int| 0 <= j < i ==> self.components@[j] == 0,
            decreases self.components.len() - i,
        {
            if self.components[i] != 0 {
                return false;
            }
            i += 1;
        }
        true
    }

    /// Normalized component ratios; the zero vector cannot be normalized.
    pub fn direction_shares(&self) -> (r: Result<Vec<DirectionShare>, KernelXError>)
        requires self.spec_magnitude() <= u128::MAX,
        ensures
            self.spec_magnitude() == 0 ==> r matches Err(KernelXError::ZeroNormalization),
            self.spec_magnitude() != 0 ==> (r matches Ok(shares) && shares@.len() == self.components@.len()
                && forall|i: int| 0 <= i < shares@.len() ==> (#[trigger] shares@[i]) == (DirectionShare {
                    component_index: i as usize,
                    numerator: self.components@[i],
                    denominator: self.spec_magnitude() as u128,
                })),
    {
        let magnitude = self.magnitude();
        if magnitude == 0 {
            return Err(KernelXError::ZeroNormalization);
        }
        let mut out: Vec<DirectionShare> = Vec::new();
        let mut i: usize = 0;
        while i < self.components.len()
            invariant
                i <= self.components.len(),
                magnitude == self.spec_magnitude(),
                out@.len() == i,
                forall|j: int| 0 <= j < i ==> (#[trigger] out@[j]) == (DirectionShare {
                    component_index: j as usize,
                    numerator: self.components@[j],
                    denominator: magnitude,
                }),
            decreases self.components.len() - i,
        {
            out.push(DirectionShare { component_index: i, numerator: self.components[i], denominator: magnitude });
            i += 1;
        }
        Ok(out)
    }

    /// Rejects vectors of different lengths.
    pub fn ensure_same_shape(&self, other: &Self) -> (r: Result<(), KernelXError>)
        ensures
            r is Ok == (self.components@.len() == other.components@.len()),
            r matches Err(e) ==> e is DimensionMismatch,
    {
        if self.components.len() != other.components.len() {
            return Err(KernelXError::DimensionMismatch);
        }
        Ok(())
    }

    /// Replaces the components, stamps the time and bumps the version.
    pub fn with_components(self, components: Vec<u128>, timestamp_ms: u64) -> (r: Self)
        requires self.version < u64::MAX,
        ensures
            r@ == (VectorView { components: components@, updated_at_ms: timestamp_ms, version: (self.version + 1) as u64, ..self@ }),
    {
        let mut s = self;
        s.components = components;
        s.updated_at_ms = timestamp_ms;
        s.version = s.version + 1;
        s
    }

    /// Replaces the status, stamps the time and bumps the version.
    pub fn with_status(self, status: VectorStatus, timestamp_ms: u64) -> (r: Self)
        requires self.version < u64::MAX,
        ensures
            r@ == (VectorView { status: status, updated_at_ms: timestamp_ms, version: (self.version + 1) as u64, ..self@ }),
    {
        let mut s = self;
        s.status = status;
        s.updated_at_ms = timestamp_ms;
        s.version = s.version + 1;
        s
    }
}

} // verus!
verus! {

/// The current wall-clock time in milliseconds since the Unix epoch.
#[verifier::external_body]
pub fn now_ms() -> u64 {
    std::time::SystemTime::now()
        .duration_since(std::time::UNIX_EPOCH)
        .map(|d| d.as_millis() as u64)
        .unwrap_or(0)
}

/// The view of a freshly created vector.
pub open spec fn new_vector_view(vector_id: Seq<char>, owner_pubkey: Seq<char>, space_id: Seq<char>,
    components: Seq<u128>, vector_type: VectorType, timestamp_ms: u64) -> VectorView
{
    VectorView {
        schema: STATE_SCHEMA_V1@,
        vector_id,
        owner_pubkey,
        space_id,
        vector_type,
        status: VectorStatus::Active,
        components,
        type_metadata: Seq::empty(),
        certification: CertificationView {
            certified: false,
            auth_ratio: 0,
            threshold: 700,
            last_checked_at_ms: timestamp_ms,
            reason: Some("not yet certified"@),
        },
        projection: None,
        origin: None,
        version: 1,
        created_at_ms: timestamp_ms,
        updated_at_ms: timestamp_ms,
    }
}

impl VectorStateV1 {
    /// A new active, uncertified vector at version 1.
    pub fn new(vector_id: String, owner_pubkey: String, space_id: String, components: Vec<u128>,
        vector_type: VectorType, timestamp_ms: u64) -> (r: Self)
        ensures
            r@ == new_vector_view(vector_id@, owner_pubkey@, space_id@, components@, vector_type, timestamp_ms),
            r.type_metadata.wf(),
    {
        let s = VectorStateV1 {
            schema: String::from_str(STATE_SCHEMA_V1),
            vector_id,
            owner_pubkey,
            space_id,
            vector_type,
            status: VectorStatus::Active,
            components,
            type_metadata: StringMap::new(),
            certification: CertificationState {
                certified: false,
                auth_ratio: 0,
                threshold: 700,
                last_checked_at_ms: timestamp_ms,
                reason: Some(String::from_str("not yet certified")),
            },
            projection: None,
            origin: None,
            version: 1,
            created_at_ms: timestamp_ms,
            updated_at_ms: timestamp_ms,
        };
        s
    }
}

/// The reasons `validate_canonical_state` rejects a state, in the order it checks them.
pub open spec fn canonical_state_problem(v: VectorView) -> Option<Seq<char>> {
    if v.schema != STATE_SCHEMA_V1@ {
        Some("schema mismatch"@)
    } else if v.components.len() == 0 {
        Some("a vector must contain at least one component"@)
    } else if v.owner_pubkey.len() == 0 || v.vector_id.len() == 0 || v.space_id.len() == 0 {
        Some("vector_id, owner_pubkey, and space_id are required"@)
    } else {
        None
    }
}

/// Structural validity of a canonical state.
pub fn validate_canonical_state(state: &VectorStateV1) -> (r: Result<(), KernelXError>)
    ensures
        match canonical_state_problem(state@) {
            None => r is Ok,
            Some(msg) => r matches Err(KernelXError::InvalidState(m)) && m@ == msg,
        },
{
    let schema = String::from_str(STATE_SCHEMA_V1);
    if state.schema != schema {
        return Err(KernelXError::InvalidState(String::from_str("schema mismatch")));
    }
    if state.components.len() == 0 {
        return Err(KernelXError::InvalidState(String::from_str("a vector must contain at least one component")));
    }
    if state.owner_pubkey.as_str().is_empty() || state.vector_id.as_str().is_empty() || state.space_id.as_str().is_empty() {
        return Err(KernelXError::InvalidState(String::from_str("vector_id, owner_pubkey, and space_id are required")));
    }
    Ok(())
}

} // verus!
