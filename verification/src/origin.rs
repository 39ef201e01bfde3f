use vstd::prelude::*;
use vstd::string::StringExecFns;
use crate::crypto::{sha256, sha256_digest};
use crate::encoding::{hex_lower, le_bytes, push_bytes, push_hex, push_u64_le, lemma_hex_lower_len};
use crate::error::KernelXError;
use crate::state::{new_vector_view, now_ms, CertificationView, OriginState, OriginView, VectorStateV1, VectorType, VectorView};
use crate::text::string_from_chars;

verus! {

/// The proof hash of a seed and nonce: lowercase hex of SHA-256 over the seed's
/// UTF-8 bytes followed by the nonce's 8 little-endian bytes.
pub open spec fn origin_proof(seed: Seq<char>, nonce: u64) -> Seq<char> {
    hex_lower(sha256_digest(vstd::utf8::encode_utf8(seed) + le_bytes(nonce as nat, 8)))
}

/// How many leading `'0'` characters a string has.
pub open spec fn leading_zeros(s: Seq<char>) -> nat
    decreases s.len(),
{
    if s.len() == 0 || s[0] != '0' { 0 } else { 1 + leading_zeros(s.drop_first()) }
}

/// Whether a nonce solves the origin puzzle for a seed at a difficulty.
pub open spec fn origin_valid(seed: Seq<char>, nonce: u64, difficulty: u32) -> bool {
    leading_zeros(origin_proof(seed, nonce)) >= difficulty
}

proof fn lemma_leading_zeros_le(s: Seq<char>)
    ensures leading_zeros(s) <= s.len(),
    decreases s.len(),
{
    if s.len() > 0 && s[0] == '0' { lemma_leading_zeros_le(s.drop_first()); }
}

/// The origin proof hash of a seed and nonce.
pub fn origin_proof_hash(seed: &str, nonce: u64) -> (r: String)
    ensures r@ == origin_proof(seed@, nonce), r@.len() == 64,
{
    let mut data: Vec<u8> = Vec::new();
    push_bytes(&mut data, seed.as_bytes());
    push_u64_le(&mut data, nonce);
    let digest = sha256(data.as_slice());
    let mut out: Vec<char> = Vec::new();
    push_hex(&mut out, digest.as_slice());
    assert(out@ =~= origin_proof(seed@, nonce));
    proof { lemma_hex_lower_len(digest@); }
    string_from_chars(out.as_slice())
}

/// Checks the proof-of-work: the proof hash has at least `difficulty` leading zero nibbles.
pub fn verify_origin(seed: &str, nonce: u64, difficulty: u32) -> (r: bool)
    ensures r == origin_valid(seed@, nonce, difficulty),
{
    let proof = origin_proof_hash(seed, nonce);
    let chars = crate::text::chars_of(proof.as_str());
    let mut count: usize = 0;
    proof {
        assert(chars@.skip(0) =~= chars@);
    }
    while count < chars.len() && chars[count] == '0'
        invariant
            count <= chars.len(),
            chars@.len() == 64,
            leading_zeros(chars@) == count + leading_zeros(chars@.skip(count as int)),
        decreases chars.len() - count,
    {
        assert(chars@.skip(count as int).drop_first() =~= chars@.skip(count + 1));
        count += 1;
    }
    (count as u32) >= difficulty
}

/// Searches nonces `0..max_attempts` for the first that solves the puzzle; difficulty 0 is solved by 0.
pub fn find_valid_nonce(seed: &str, difficulty: u32, max_attempts: u64) -> (r: Option<u64>)
    ensures
        difficulty == 0 ==> r == Some(0u64),
        difficulty != 0 ==> match r {
            Some(n) => n < max_attempts && origin_valid(seed@, n, difficulty)
                && forall|m: u64| m < n ==> !origin_valid(seed@, m, difficulty),
            None => forall|m: u64| m < max_attempts ==> !origin_valid(seed@, m, difficulty),
        },
{
    if difficulty == 0 {
        return Some(0);
    }
    let mut nonce: u64 = 0;
    while nonce < max_attempts
        invariant
            nonce <= max_attempts,
            difficulty != 0,
            forall|m: u64| m < nonce ==> !origin_valid(seed@, m, difficulty),
        decreases max_attempts - nonce,
    {
        if verify_origin(seed, nonce, difficulty) {
            return Some(nonce);
        }
        nonce += 1;
    }
    None
}

/// Mints a certified origin vector once its proof-of-work checks out.
pub fn create_origin_vector(vector_id: String, owner_pubkey: String, space_id: String, components: Vec<u128>,
    seed: String, nonce: u64, difficulty: u32) -> (r: Result<VectorStateV1, KernelXError>)
    ensures
        !origin_valid(seed@, nonce, difficulty) ==> r matches Err(KernelXError::OriginRejected),
        origin_valid(seed@, nonce, difficulty) ==> (r matches Ok(s) && s.type_metadata.wf() && s@ == ({
            let base = new_vector_view(vector_id@, owner_pubkey@, space_id@, components@, VectorType::Origin, s.created_at_ms);
            VectorView {
                origin: Some(OriginView { seed: seed@, nonce, difficulty, proof_hash: origin_proof(seed@, nonce) }),
                certification: CertificationView { certified: true, auth_ratio: 1000, reason: None, ..base.certification },
                ..base
            }
        })),
{
    if !verify_origin(seed.as_str(), nonce, difficulty) {
        return Err(KernelXError::OriginRejected);
    }
    let timestamp = now_ms();
    let proof_hash = origin_proof_hash(seed.as_str(), nonce);
    let mut state = VectorStateV1::new(vector_id, owner_pubkey, space_id, components, VectorType::Origin, timestamp);
    state.origin = Some(OriginState { seed, nonce, difficulty, proof_hash });
    state.certification.certified = true;
    state.certification.auth_ratio = 1000;
    state.certification.reason = None;
    Ok(state)
}

/// `leading_zeros` counts the `'0'` characters before the first other one.
pub proof fn lemma_leading_zeros_counts(s: Seq<char>)
    ensures
        leading_zeros(s) <= s.len(),
        forall|i: int| 0 <= i < leading_zeros(s) ==> s[i] == '0',
        leading_zeros(s) < s.len() ==> s[leading_zeros(s) as int] != '0',
    decreases s.len(),
{
    if s.len() > 0 && s[0] == '0' {
        let t = s.drop_first();
        lemma_leading_zeros_counts(t);
        assert forall|i: int| 0 <= i < leading_zeros(s) implies s[i] == '0' by {
            if i > 0 { assert(s[i] == t[i - 1]); }
        }
        if leading_zeros(s) < s.len() { assert(s[leading_zeros(s) as int] == t[leading_zeros(t) as int]); }
    }
}

/// A nonce solves the puzzle at every difficulty up to the number of leading zero digits of
/// its proof hash, that number included, and at no higher one.
pub proof fn lemma_origin_difficulty(seed: Seq<char>, nonce: u64, difficulty: u32)
    ensures
        difficulty <= leading_zeros(origin_proof(seed, nonce)) ==> origin_valid(seed, nonce, difficulty),
        difficulty > leading_zeros(origin_proof(seed, nonce)) ==> !origin_valid(seed, nonce, difficulty),
        leading_zeros(origin_proof(seed, nonce)) == difficulty ==> origin_valid(seed, nonce, difficulty),
        origin_valid(seed, nonce, 0),
{
}

/// A nonce that solves the puzzle at a difficulty solves it at every lower one.
pub proof fn lemma_origin_easier(seed: Seq<char>, nonce: u64, difficulty: u32, lower: u32)
    requires origin_valid(seed, nonce, difficulty), lower <= difficulty,
    ensures origin_valid(seed, nonce, lower),
{
}

} // verus!
