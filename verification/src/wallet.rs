use vstd::prelude::*;
use vstd::string::StringSliceAdditionalSpecFns;
use crate::encoding::hex_lower;
use crate::error::KernelXError;
use crate::signature::{ed25519_key_from_bytes, ed25519_key_ok, ed25519_public_of, ed25519_signature_of, ed25519_verify, hex_crate_decode, hex_encode, lemma_hex_roundtrip, parsed_key, random_secret_key, sign_event, signature_check, SigningKeyBytes};
use crate::strmap::StringMap;

verus! {

/// The public identity of a wallet.
#[derive(Clone, Debug)]
pub struct WalletIdentity {
    pub public_key_hex: String,
    pub metadata: StringMap,
}

/// A wallet: an Ed25519 signing key, its hex public key, and free-form metadata.
#[derive(Debug)]
pub struct WalletContext {
    signing_key: SigningKeyBytes,
    public_key_hex: String,
    pub metadata: StringMap,
}

impl WalletContext {
    /// The wallet's secret key bytes.
    pub closed spec fn secret(&self) -> Seq<u8> {
        self.signing_key.bytes@
    }

    /// The wallet's metadata entries, in key order.
    pub closed spec fn metadata_entries(&self) -> Seq<(Seq<char>, Seq<char>)> {
        self.metadata@
    }

    /// A 32-byte secret key, with the public key held as the lowercase hex of its own public key.
    pub closed spec fn wf(&self) -> bool {
        &&& self.signing_key.valid()
        &&& ed25519_public_of(self.signing_key.bytes@).len() == 32
        &&& ed25519_key_ok(ed25519_public_of(self.signing_key.bytes@))
        &&& self.public_key_hex@ == hex_lower(ed25519_public_of(self.signing_key.bytes@))
    }

    /// A wallet with a fresh random key and no metadata.
    pub fn generate() -> (w: WalletContext)
        ensures w.wf(), w.metadata_entries().len() == 0,
    {
        let signing_key = SigningKeyBytes { bytes: random_secret_key() };
        let public_key = signing_key.public_key();
        let public_key_hex = hex_encode(public_key.bytes.as_slice());
        WalletContext { signing_key, public_key_hex, metadata: StringMap::new() }
    }

    /// The lowercase hex of the wallet's public key.
    pub fn public_key_hex(&self) -> (r: String)
        requires self.wf(),
        ensures
            r@ == hex_lower(ed25519_public_of(self.secret())),
            r@.len() == 64,
            forall|i: int| 0 <= i < 64 ==> {
                let c = #[trigger] r@[i] as u32;
                (48 <= c <= 57) || (97 <= c <= 102)
            },
    {
        let r = self.public_key_hex.clone();
        proof {
            let pk = ed25519_public_of(self.signing_key.bytes@);
            assert forall|i: int| 0 <= i < 64 implies {
                let c = #[trigger] r@[i] as u32;
                (48 <= c <= 57) || (97 <= c <= 102)
            } by {
                crate::signature::lemma_hex_lower_index(pk, i / 2);
                assert(i == 2 * (i / 2) || i == 2 * (i / 2) + 1);
            }
            crate::signature::lemma_hex_lower_index(pk, 0);
        }
        r
    }

    /// The wallet's public key and a copy of its metadata.
    pub fn identity(&self) -> (r: WalletIdentity)
        requires self.wf(),
        ensures
            r.public_key_hex@ == hex_lower(ed25519_public_of(self.secret())),
            r.metadata@ == self.metadata_entries(),
    {
        WalletIdentity { public_key_hex: self.public_key_hex(), metadata: self.metadata.duplicate() }
    }

    /// Signs a message; the hex-encoded Ed25519 signature, which verifies under the
    /// wallet's own hex public key.
    pub fn sign(&self, message: &[u8]) -> (r: String)
        requires self.wf(),
        ensures
            r@ == hex_lower(ed25519_signature_of(self.secret(), message@)),
            detached_signature_valid(
                vstd::utf8::encode_utf8(hex_lower(ed25519_public_of(self.secret()))),
                message@,
                vstd::utf8::encode_utf8(r@),
            ),
    {
        let r = sign_event(&self.signing_key, message);
        proof {
            lemma_hex_roundtrip(ed25519_public_of(self.secret()));
            lemma_hex_roundtrip(ed25519_signature_of(self.secret(), message@));
        }
        r
    }
}

/// Whether a hex public key and a hex signature verify a message.
pub open spec fn detached_signature_valid(public_key_hex: Seq<u8>, message: Seq<u8>, signature_hex: Seq<u8>) -> bool {
    &&& parsed_key(public_key_hex) is Ok
    &&& signature_check(parsed_key(public_key_hex)->Ok_0, message, signature_hex) == Ok::<bool, Seq<char>>(true)
}

/// Verifies a detached hex signature over a message with a hex public key; every
/// failure is reported as a signature error.
pub fn verify_signature(public_key_hex: &str, message: &[u8], signature_hex: &str) -> (r: Result<(), KernelXError>)
    ensures
        r is Ok == detached_signature_valid(public_key_hex.spec_bytes(), message@, signature_hex.spec_bytes()),
        r matches Err(e) ==> e is Signature,
{
    let pk_bytes = match hex_crate_decode(public_key_hex) {
        Some(b) => b,
        None => { return Err(KernelXError::Signature); }
    };
    let sig_bytes = match hex_crate_decode(signature_hex) {
        Some(b) => b,
        None => { return Err(KernelXError::Signature); }
    };
    if pk_bytes.len() != 32 || sig_bytes.len() != 64 {
        return Err(KernelXError::Signature);
    }
    match ed25519_key_from_bytes(pk_bytes.as_slice()) {
        Ok(()) => {}
        Err(_) => { return Err(KernelXError::Signature); }
    }
    if ed25519_verify(pk_bytes.as_slice(), message, sig_bytes.as_slice()) {
        Ok(())
    } else {
        Err(KernelXError::Signature)
    }
}

} // verus!
