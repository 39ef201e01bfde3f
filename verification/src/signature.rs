use vstd::prelude::*;
use ed25519_dalek::Verifier;
use ed25519_dalek::Signer;
use vstd::string::StringExecFns;
use vstd::string::StringSliceAdditionalSpecFns;
use crate::encoding::{hex_lower, hex_digit, push_hex, lemma_hex_lower_len};
use crate::text::{push_str, string_from_chars};

verus! {

/// Whether 32 bytes are the compressed form of a point on the Edwards curve.
pub uninterp spec fn ed25519_key_ok(key: Seq<u8>) -> bool;

/// Whether a 64-byte signature verifies for a message under a 32-byte public key.
pub uninterp spec fn ed25519_signature_ok(key: Seq<u8>, message: Seq<u8>, signature: Seq<u8>) -> bool;

/// Calls `ed25519_dalek::VerifyingKey::from_bytes` on 32 bytes. The contract claims it
/// succeeds exactly when the bytes decompress to a curve point, and that its only error
/// (point decompression) displays as the text below, as the crate's source shows.
#[verifier::external_body]
pub(crate) fn ed25519_key_from_bytes(key: &[u8]) -> (r: Result<(), String>)
    requires key@.len() == 32,
    ensures
        r is Ok == ed25519_key_ok(key@),
        r matches Err(m) ==> m@ == "signature error: Cannot decompress Edwards point"@,
{
    let bytes: [u8; 32] = key.try_into().unwrap();
    ed25519_dalek::VerifyingKey::from_bytes(&bytes).map(|_| ()).map_err(|e| format!("{e}"))
}

/// Calls `ed25519_dalek::Verifier::verify` for a key given by its 32 valid bytes and a
/// 64-byte signature. The contract claims the result is the named verification predicate;
/// the key is rebuilt from its bytes, which the precondition makes infallible.
#[verifier::external_body]
pub(crate) fn ed25519_verify(key: &[u8], message: &[u8], signature: &[u8]) -> (r: bool)
    requires key@.len() == 32, signature@.len() == 64, ed25519_key_ok(key@),
    ensures r == ed25519_signature_ok(key@, message@, signature@),
{
    let key_bytes: [u8; 32] = key.try_into().unwrap();
    let sig_bytes: [u8; 64] = signature.try_into().unwrap();
    let vk = ed25519_dalek::VerifyingKey::from_bytes(&key_bytes).unwrap();
    vk.verify(message, &ed25519_dalek::Signature::from_bytes(&sig_bytes)).is_ok()
}

/// The value of an ASCII hex digit, either case.
pub open spec fn hex_val(b: u8) -> Option<u8> {
    if 48 <= b <= 57 { Some((b - 48) as u8) }
    else if 97 <= b <= 102 { Some((b - 87) as u8) }
    else if 65 <= b <= 70 { Some((b - 55) as u8) }
    else { None }
}

/// The error text for a byte that is not a hex digit (the byte read as a Latin-1 character).
pub open spec fn invalid_hex_message(b: u8) -> Seq<char> {
    "invalid hex character: "@ + seq![(b as u32) as char]
}

/// Decodes hex digit pairs from the front; the first bad character is reported.
pub open spec fn decode_pairs(b: Seq<u8>) -> Result<Seq<u8>, Seq<char>>
    decreases b.len(),
{
    if b.len() < 2 {
        Ok(Seq::empty())
    } else {
        match hex_val(b[0]) {
            None => Err(invalid_hex_message(b[0])),
            Some(h) => match hex_val(b[1]) {
                None => Err(invalid_hex_message(b[1])),
                Some(l) => match decode_pairs(b.skip(2)) {
                    Ok(rest) => Ok(seq![(h * 16 + l) as u8] + rest),
                    Err(e) => Err(e),
                },
            },
        }
    }
}

/// Hex decoding of a string's bytes: even length and hex digits of either case.
pub open spec fn hex_decoded(s: Seq<u8>) -> Result<Seq<u8>, Seq<char>> {
    if s.len() % 2 != 0 { Err("hex string must have even length"@) } else { decode_pairs(s) }
}

pub open spec fn prepend_ok(p: Seq<u8>, r: Result<Seq<u8>, Seq<char>>) -> Result<Seq<u8>, Seq<char>> {
    match r {
        Ok(x) => Ok(p + x),
        Err(e) => Err(e),
    }
}

/// The value of one hex digit byte.
pub fn hex_value(byte: u8) -> (r: Result<u8, String>)
    ensures
        match hex_val(byte) {
            Some(v) => r == Ok::<u8, String>(v),
            None => r matches Err(m) && m@ == invalid_hex_message(byte),
        },
{
    if 48 <= byte && byte <= 57 {
        Ok(byte - 48)
    } else if 97 <= byte && byte <= 102 {
        Ok(byte - 87)
    } else if 65 <= byte && byte <= 70 {
        Ok(byte - 55)
    } else {
        let mut v: Vec<char> = Vec::new();
        push_str(&mut v, "invalid hex character: ");
        v.push(char_of_byte(byte));
        assert(v@ =~= invalid_hex_message(byte));
        Err(string_from_chars(v.as_slice()))
    }
}

/// A byte read as a Latin-1 character (`byte as char`).
pub fn char_of_byte(b: u8) -> (c: char)
    ensures c == (b as u32) as char,
{
    b as char
}

/// Decodes a hex string (either case) into bytes.
pub fn hex_decode(input: &str) -> (r: Result<Vec<u8>, String>)
    ensures
        match hex_decoded(input.spec_bytes()) {
            Ok(b) => r matches Ok(v) && v@ == b,
            Err(m) => r matches Err(e) && e@ == m,
        },
{
    let bytes = input.as_bytes();
    if bytes.len() % 2 != 0 {
        return Err(String::from_str("hex string must have even length"));
    }
    let mut out: Vec<u8> = Vec::new();
    let mut i: usize = 0;
    assert(bytes@.skip(0) =~= bytes@);
    assert(out@ + Seq::<u8>::empty() =~= out@);
    while i < bytes.len()
        invariant
            i <= bytes.len(), i % 2 == 0, bytes.len() % 2 == 0, bytes@ == input.spec_bytes(),
            decode_pairs(bytes@) == prepend_ok(out@, decode_pairs(bytes@.skip(i as int))),
        decreases bytes.len() - i,
    {
        let ghost rest = bytes@.skip(i as int);
        assert(rest.skip(2) =~= bytes@.skip(i + 2));
        assert(rest[0] == bytes@[i as int] && rest[1] == bytes@[i + 1]);
        let hi = match hex_value(bytes[i]) {
            Ok(v) => v,
            Err(e) => { return Err(e); }
        };
        let lo = match hex_value(bytes[i + 1]) {
            Ok(v) => v,
            Err(e) => { return Err(e); }
        };
        let ghost before = out@;
        out.push(hi * 16 + lo);
        proof {
            match decode_pairs(bytes@.skip(i + 2)) {
                Ok(x) => { assert(before + (seq![(hi * 16 + lo) as u8] + x) =~= out@ + x); }
                Err(_) => {}
            }
        }
        i += 2;
    }
    proof {
        assert(bytes@.skip(i as int).len() == 0);
        assert(out@ + Seq::<u8>::empty() =~= out@);
    }
    Ok(out)
}

/// Lowercase hex encoding of bytes.
pub fn hex_encode(bytes: &[u8]) -> (r: String)
    ensures r@ == hex_lower(bytes@),
{
    let mut out: Vec<char> = Vec::new();
    push_hex(&mut out, bytes);
    assert(out@ =~= hex_lower(bytes@));
    string_from_chars(out.as_slice())
}

/// A parsed Ed25519 public key, held as its 32 compressed bytes.
#[derive(Clone, Debug)]
pub struct PublicKeyBytes {
    pub bytes: Vec<u8>,
}

impl PublicKeyBytes {
    pub open spec fn valid(&self) -> bool {
        self.bytes@.len() == 32 && ed25519_key_ok(self.bytes@)
    }
}

/// What parsing a hex public key gives: its bytes or the error text.
pub open spec fn parsed_key(hex: Seq<u8>) -> Result<Seq<u8>, Seq<char>> {
    match hex_decoded(hex) {
        Err(m) => Err(m),
        Ok(b) => if b.len() != 32 {
            Err("ed25519 verifying key must be 32 bytes"@)
        } else if !ed25519_key_ok(b) {
            Err("public key parse error: signature error: Cannot decompress Edwards point"@)
        } else {
            Ok(b)
        },
    }
}

/// Parses a hex-encoded Ed25519 public key.
pub fn verifying_key_from_hex(public_key_hex: &str) -> (r: Result<PublicKeyBytes, String>)
    ensures
        match parsed_key(public_key_hex.spec_bytes()) {
            Ok(b) => r matches Ok(k) && k.bytes@ == b && k.valid(),
            Err(m) => r matches Err(e) && e@ == m,
        },
{
    let bytes = hex_decode(public_key_hex)?;
    if bytes.len() != 32 {
        return Err(String::from_str("ed25519 verifying key must be 32 bytes"));
    }
    match ed25519_key_from_bytes(bytes.as_slice()) {
        Ok(()) => Ok(PublicKeyBytes { bytes }),
        Err(e) => {
            let mut v: Vec<char> = Vec::new();
            push_str(&mut v, "public key parse error: ");
            push_str(&mut v, e.as_str());
            proof {
                reveal_strlit("public key parse error: ");
                reveal_strlit("signature error: Cannot decompress Edwards point");
                reveal_strlit("public key parse error: signature error: Cannot decompress Edwards point");
            }
            assert(v@ =~= "public key parse error: signature error: Cannot decompress Edwards point"@);
            Err(string_from_chars(v.as_slice()))
        }
    }
}

/// What checking a hex signature gives: whether it verifies, or the error text.
pub open spec fn signature_check(key: Seq<u8>, payload: Seq<u8>, signature_hex: Seq<u8>) -> Result<bool, Seq<char>> {
    match hex_decoded(signature_hex) {
        Err(m) => Err(m),
        Ok(sig) => if sig.len() != 64 {
            Err("signature parse error: signature error"@)
        } else {
            Ok(ed25519_signature_ok(key, payload, sig))
        },
    }
}

/// Verifies a hex-encoded signature against canonical payload bytes.
pub fn verify_event_signature(verifying_key: &PublicKeyBytes, payload: &[u8], signature_hex: &str) -> (r: Result<bool, String>)
    requires verifying_key.valid(),
    ensures
        match signature_check(verifying_key.bytes@, payload@, signature_hex.spec_bytes()) {
            Ok(b) => r == Ok::<bool, String>(b),
            Err(m) => r matches Err(e) && e@ == m,
        },
{
    let sig_bytes = hex_decode(signature_hex)?;
    if sig_bytes.len() != 64 {
        return Err(String::from_str("signature parse error: signature error"));
    }
    Ok(ed25519_verify(verifying_key.bytes.as_slice(), payload, sig_bytes.as_slice()))
}


/// The 32 compressed bytes of the Ed25519 public key of a 32-byte secret key.
pub uninterp spec fn ed25519_public_of(secret: Seq<u8>) -> Seq<u8>;

/// The 64-byte Ed25519 signature (RFC 8032, deterministic) of a message under a 32-byte secret key.
pub uninterp spec fn ed25519_signature_of(secret: Seq<u8>, message: Seq<u8>) -> Seq<u8>;

/// Calls `ed25519_dalek::SigningKey::verifying_key` on a key built from 32 secret bytes.
/// The contract claims the result is the named public key of the secret, 32 bytes long,
/// and (being the compression of a curve point) accepted by `VerifyingKey::from_bytes`.
#[verifier::external_body]
pub(crate) fn ed25519_public_key(secret: &[u8]) -> (r: Vec<u8>)
    requires secret@.len() == 32,
    ensures
        r@ == ed25519_public_of(secret@),
        r@.len() == 32,
        ed25519_key_ok(r@),
{
    let bytes: [u8; 32] = secret.try_into().unwrap();
    ed25519_dalek::SigningKey::from_bytes(&bytes).verifying_key().to_bytes().to_vec()
}

/// Calls `ed25519_dalek::Signer::sign` with a key built from 32 secret bytes. The contract
/// claims the result is the named signature of the message, 64 bytes long, and that it
/// verifies under the key's own public key (what signing is for).
#[verifier::external_body]
pub(crate) fn ed25519_sign(secret: &[u8], message: &[u8]) -> (r: Vec<u8>)
    requires secret@.len() == 32,
    ensures
        r@ == ed25519_signature_of(secret@, message@),
        r@.len() == 64,
        ed25519_signature_ok(ed25519_public_of(secret@), message@, r@),
{
    let bytes: [u8; 32] = secret.try_into().unwrap();
    ed25519_dalek::SigningKey::from_bytes(&bytes).sign(message).to_bytes().to_vec()
}

/// Calls `rand_core::OsRng` through `ed25519_dalek::SigningKey::generate` and returns the
/// fresh key's 32 secret bytes. The bytes depend on the operating system's randomness, so
/// the contract claims only their length.
#[verifier::external_body]
pub(crate) fn random_secret_key() -> (r: Vec<u8>)
    ensures r@.len() == 32,
{
    ed25519_dalek::SigningKey::generate(&mut rand_core::OsRng).to_bytes().to_vec()
}

/// Calls `hex::decode`. The contract claims what the crate's source shows: it succeeds
/// exactly when the input has even length and holds only hex digits of either case, and
/// then gives the decoded bytes. Which error it reports is not carried over.
#[verifier::external_body]
pub(crate) fn hex_crate_decode(input: &str) -> (r: Option<Vec<u8>>)
    ensures
        r is Some == hex_decoded(input.spec_bytes()) is Ok,
        r matches Some(v) ==> hex_decoded(input.spec_bytes())->Ok_0 == v@,
{
    hex::decode(input).ok()
}

/// An Ed25519 signing key, held as its 32 secret bytes.
#[derive(Clone, Debug)]
pub struct SigningKeyBytes {
    pub bytes: Vec<u8>,
}

impl SigningKeyBytes {
    pub open spec fn valid(&self) -> bool {
        self.bytes@.len() == 32
    }

    /// The lowercase hex of the key's public key.
    pub open spec fn public_hex(&self) -> Seq<char> {
        hex_lower(ed25519_public_of(self.bytes@))
    }

    /// The 32 bytes of the matching public key.
    pub fn public_key(&self) -> (r: PublicKeyBytes)
        requires self.valid(),
        ensures r.bytes@ == ed25519_public_of(self.bytes@), r.valid(),
    {
        PublicKeyBytes { bytes: ed25519_public_key(self.bytes.as_slice()) }
    }
}

/// What parsing a hex signing key gives: its 32 bytes or the error text.
pub open spec fn parsed_signing_key(hex: Seq<u8>) -> Result<Seq<u8>, Seq<char>> {
    match hex_decoded(hex) {
        Err(m) => Err(m),
        Ok(b) => if b.len() != 32 { Err("ed25519 signing key must be 32 bytes"@) } else { Ok(b) },
    }
}

/// Parses a hex-encoded Ed25519 signing key (32 bytes of secret key material).
pub fn signing_key_from_hex(secret_key_hex: &str) -> (r: Result<SigningKeyBytes, String>)
    ensures
        match parsed_signing_key(secret_key_hex.spec_bytes()) {
            Ok(b) => r matches Ok(k) && k.bytes@ == b && k.valid(),
            Err(m) => r matches Err(e) && e@ == m,
        },
{
    let bytes = hex_decode(secret_key_hex)?;
    if bytes.len() != 32 {
        return Err(String::from_str("ed25519 signing key must be 32 bytes"));
    }
    Ok(SigningKeyBytes { bytes })
}

/// Signs canonical payload bytes and returns the hex-encoded Ed25519 signature.
pub fn sign_event(signing_key: &SigningKeyBytes, payload: &[u8]) -> (r: String)
    requires signing_key.valid(),
    ensures
        r@ == hex_lower(ed25519_signature_of(signing_key.bytes@, payload@)),
        ed25519_signature_of(signing_key.bytes@, payload@).len() == 64,
        ed25519_signature_ok(
            ed25519_public_of(signing_key.bytes@),
            payload@,
            ed25519_signature_of(signing_key.bytes@, payload@),
        ),
{
    let signature = ed25519_sign(signing_key.bytes.as_slice(), payload);
    hex_encode(signature.as_slice())
}

/// Digit positions of the lowercase hex encoding: two digits per byte, high nibble first.
pub proof fn lemma_hex_lower_index(b: Seq<u8>, i: int)
    requires 0 <= i < b.len(),
    ensures
        hex_lower(b).len() == 2 * b.len(),
        hex_lower(b)[2 * i] == hex_digit((b[i] / 16) as nat),
        hex_lower(b)[2 * i + 1] == hex_digit((b[i] % 16) as nat),
    decreases b.len(),
{
    lemma_hex_lower_len(b);
    lemma_hex_lower_len(b.drop_last());
    if i < b.len() - 1 {
        lemma_hex_lower_index(b.drop_last(), i);
    }
}

/// Hex digits decode back to the nibble they were written for.
pub proof fn lemma_hex_digit_value(n: nat)
    requires n < 16,
    ensures hex_val((hex_digit(n) as u32) as u8) == Some(n as u8),
{
}

/// Bytes whose digit pairs each decode to the matching byte decode to those bytes.
proof fn lemma_decode_pairs_of(x: Seq<u8>, b: Seq<u8>)
    requires
        x.len() == 2 * b.len(),
        forall|i: int| 0 <= i < b.len() ==> hex_val(#[trigger] x[2 * i]) == Some((b[i] / 16) as u8),
        forall|i: int| 0 <= i < b.len() ==> hex_val(#[trigger] x[2 * i + 1]) == Some((b[i] % 16) as u8),
    ensures decode_pairs(x) == Ok::<Seq<u8>, Seq<char>>(b),
    decreases b.len(),
{
    if b.len() == 0 {
        assert(b =~= Seq::<u8>::empty());
    } else {
        let xs = x.skip(2);
        let bs = b.skip(1);
        assert forall|i: int| 0 <= i < bs.len() implies hex_val(#[trigger] xs[2 * i]) == Some((bs[i] / 16) as u8) by {
            assert(xs[2 * i] == x[2 * (i + 1)]);
        }
        assert forall|i: int| 0 <= i < bs.len() implies hex_val(#[trigger] xs[2 * i + 1]) == Some((bs[i] % 16) as u8) by {
            assert(xs[2 * i + 1] == x[2 * (i + 1) + 1]);
        }
        lemma_decode_pairs_of(xs, bs);
        assert(hex_val(x[2 * 0int]) == Some((b[0] / 16) as u8));
        assert(hex_val(x[2 * 0int + 1]) == Some((b[0] % 16) as u8));
        let h = (b[0] / 16) as u8;
        let l = (b[0] % 16) as u8;
        assert((h * 16 + l) as u8 == b[0]);
        assert(x[0] == x[2 * 0int] && x[1] == x[2 * 0int + 1]);
        assert(seq![b[0]] + bs =~= b);
        assert(decode_pairs(x) == Ok::<Seq<u8>, Seq<char>>(seq![(h * 16 + l) as u8] + bs));
    }
}

/// Decoding the bytes of a lowercase hex encoding gives back the encoded bytes.
pub proof fn lemma_hex_roundtrip(b: Seq<u8>)
    ensures hex_decoded(vstd::utf8::encode_utf8(hex_lower(b))) == Ok::<Seq<u8>, Seq<char>>(b),
{
    let h = hex_lower(b);
    lemma_hex_lower_len(b);
    assert forall|k: int| 0 <= k < h.len() implies '\0' <= #[trigger] h[k] <= '\u{7f}' by {
        let i = k / 2;
        lemma_hex_lower_index(b, i);
        if k == 2 * i { } else { assert(k == 2 * i + 1); }
    }
    assert(vstd::utf8::is_ascii_chars(h));
    vstd::utf8::is_ascii_chars_encode_utf8(h);
    let x = vstd::utf8::encode_utf8(h);
    assert forall|i: int| 0 <= i < b.len() implies hex_val(#[trigger] x[2 * i]) == Some((b[i] / 16) as u8) by {
        lemma_hex_lower_index(b, i);
        lemma_hex_digit_value((b[i] / 16) as nat);
        assert(h[2 * i] as u8 == x[2 * i]);
    }
    assert forall|i: int| 0 <= i < b.len() implies hex_val(#[trigger] x[2 * i + 1]) == Some((b[i] % 16) as u8) by {
        lemma_hex_lower_index(b, i);
        lemma_hex_digit_value((b[i] % 16) as nat);
        assert(h[2 * i + 1] as u8 == x[2 * i + 1]);
    }
    lemma_decode_pairs_of(x, b);
}

} // verus!
