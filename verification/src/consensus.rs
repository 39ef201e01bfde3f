use vstd::prelude::*;
use crate::record::VectorRecordV1;

verus! {

/// The acceptance filter records pass before they are stored.
#[derive(Clone, Debug)]
pub struct ConsensusPolicy {
    pub min_auth_ratio: u16,
    pub require_certified: bool,
}

impl Default for ConsensusPolicy {
    /// At least 700 of 1000, and certified.
    fn default() -> (r: Self)
        ensures r.min_auth_ratio == 700, r.require_certified,
    {
        ConsensusPolicy { min_auth_ratio: 700, require_certified: true }
    }
}

/// Whether a policy accepts a record with the given certification.
pub open spec fn accepts(policy: ConsensusPolicy, certified: bool, auth_ratio: u16) -> bool {
    (!policy.require_certified || certified) && auth_ratio >= policy.min_auth_ratio
}

/// Accepts a record whose certification meets the policy.
pub fn accept_record(record: &VectorRecordV1, policy: &ConsensusPolicy) -> (r: bool)
    ensures r == accepts(*policy, record.certification.certified, record.certification.auth_ratio),
{
    if policy.require_certified && !record.certification.certified {
        return false;
    }
    record.certification.auth_ratio >= policy.min_auth_ratio
}

} // verus!
