use vstd::prelude::*;
use sha2::Digest;

verus! {

/// The SHA-256 digest of a byte string.
pub uninterp spec fn sha256_digest(data: Seq<u8>) -> Seq<u8>;

/// The BLAKE3 (unkeyed, 32-byte) digest of a byte string.
pub uninterp spec fn blake3_digest(data: Seq<u8>) -> Seq<u8>;

/// Calls `sha2::Sha256::digest`: the contract claims the 32-byte digest is the named
/// SHA-256 function of the input.
#[verifier::external_body]
pub(crate) fn sha256(data: &[u8]) -> (r: Vec<u8>)
    ensures r@ == sha256_digest(data@), r@.len() == 32,
{
    sha2::Sha256::digest(data).to_vec()
}

/// Calls `blake3::hash`: the contract claims the 32-byte result is the named BLAKE3
/// digest of the input.
#[verifier::external_body]
pub(crate) fn blake3_hash(data: &[u8]) -> (r: Vec<u8>)
    ensures r@ == blake3_digest(data@), r@.len() == 32,
{
    blake3::hash(data).as_bytes().to_vec()
}

} // verus!
