use vstd::prelude::*;
use vstd::string::StringExecFns;
use vstd::string::StringSliceAdditionalSpecFns;
use crate::error::KernelXError;
use crate::event::{OperationTag, OperationType, VectorEvent, EventView};
use crate::hash::{canonical_event_hash, canonical_payload_hash, hash_hex};
use crate::region::{is_region_create, is_region_create_event, REGION_CREATE_OPERATION_NAME};
use crate::serialization::{canonical_event_payload_bytes, event_bytes, payload_bytes, utf8};
use crate::signature::{parsed_key, signature_check, verify_event_signature, verifying_key_from_hex};
use crate::state::{canonical_state_problem, validate_canonical_state, VectorStateV1};
use crate::text::{is_blank, trimmed};

verus! {

/// Why an event or request is refused.
pub enum Failure {
    Invalid(Seq<char>),
    Dimension,
}

/// Whether an error is the one a failure describes.
pub open spec fn reports(e: KernelXError, f: Failure) -> bool {
    match f {
        Failure::Invalid(m) => e matches KernelXError::InvalidState(s) && s@ == m,
        Failure::Dimension => e is DimensionMismatch,
    }
}

/// Whether an auth ratio bit pattern is a binary64 that is finite and in `[0, 1]`
/// (`+0.0` up to `1.0`, or `-0.0`).
pub open spec fn auth_ratio_bits_valid(bits: u64) -> bool {
    bits <= 0x3FF0_0000_0000_0000u64 || bits == 0x8000_0000_0000_0000u64
}

/// The outcome of checking an event's detached signature against its actor key.
pub open spec fn actor_signature_check(key_hex: Seq<u8>, e: EventView) -> Result<(), Failure> {
    match parsed_key(key_hex) {
        Err(m) => Err(Failure::Invalid(m)),
        Ok(k) => match signature_check(k, payload_bytes(e), utf8(e.signature)) {
            Err(m) => Err(Failure::Invalid(m)),
            Ok(false) => Err(Failure::Invalid("event signature verification failed"@)),
            Ok(true) => Ok(()),
        },
    }
}

/// The checks of canonical event validation, in order.
pub open spec fn event_check(e: EventView) -> Result<(), Failure> {
    if trimmed(e.event_id).len() == 0 {
        Err(Failure::Invalid("event_id is required"@))
    } else if trimmed(e.region_id).len() == 0 {
        Err(Failure::Invalid("region_id is required"@))
    } else if trimmed(e.entity_id).len() == 0 {
        Err(Failure::Invalid("entity_id is required"@))
    } else if trimmed(e.actor_public_key).len() == 0 {
        Err(Failure::Invalid("actor_public_key is required"@))
    } else if !auth_ratio_bits_valid(e.auth_ratio_bits) {
        Err(Failure::Invalid("auth_ratio must be in [0, 1]"@))
    } else if e.vector_before.components.len() != e.vector_after.components.len() {
        Err(Failure::Dimension)
    } else if e.payload_hash != hash_hex(payload_bytes(e)) {
        Err(Failure::Invalid("payload_hash mismatch"@))
    } else if e.event_hash != hash_hex(event_bytes(e)) {
        Err(Failure::Invalid("event_hash mismatch"@))
    } else if is_region_create(e) {
        if trimmed(e.signature).len() == 0 {
            Err(Failure::Invalid("region create event requires a signature"@))
        } else if e.parent_hashes.len() != 0 {
            Err(Failure::Invalid("region create event must be a root event"@))
        } else if e.operation != OperationTag::Other(REGION_CREATE_OPERATION_NAME@) {
            Err(Failure::Invalid("region create event has invalid operation tag"@))
        } else {
            Ok(())
        }
    } else if e.signature.len() != 0 {
        actor_signature_check(utf8(e.actor_public_key), e)
    } else {
        Ok(())
    }
}

/// Structural validity of a state.
pub fn validate_state(state: &VectorStateV1) -> (r: Result<(), KernelXError>)
    ensures
        match canonical_state_problem(state@) {
            None => r is Ok,
            Some(msg) => r matches Err(KernelXError::InvalidState(m)) && m@ == msg,
        },
{
    validate_canonical_state(state)
}

/// Verifies a detached hex signature over a message.
pub fn validate_signature(public_key_hex: &str, message: &[u8], signature_hex: &str) -> (r: Result<(), KernelXError>)
    ensures
        r is Ok == crate::wallet::detached_signature_valid(public_key_hex.spec_bytes(), message@, signature_hex.spec_bytes()),
        r matches Err(e) ==> e is Signature,
{
    crate::wallet::verify_signature(public_key_hex, message, signature_hex)
}

/// Rejects states of different lengths.
pub fn validate_dimension_match(a: &VectorStateV1, b: &VectorStateV1) -> (r: Result<(), KernelXError>)
    ensures
        r is Ok == (a.components@.len() == b.components@.len()),
        r matches Err(e) ==> e is DimensionMismatch,
{
    a.ensure_same_shape(b)
}

fn invalid(msg: &str) -> (e: KernelXError)
    ensures e matches KernelXError::InvalidState(s) && s@ == msg@,
{
    KernelXError::InvalidState(String::from_str(msg))
}

/// Checks the actor's signature over the event payload.
fn check_actor_signature(key_hex: &str, event: &VectorEvent) -> (r: Result<(), KernelXError>)
    ensures
        match actor_signature_check(key_hex.spec_bytes(), event@) {
            Ok(()) => r is Ok,
            Err(f) => r matches Err(e) && reports(e, f),
        },
{
    let key = match verifying_key_from_hex(key_hex) {
        Ok(k) => k,
        Err(m) => { return Err(KernelXError::InvalidState(m)); }
    };
    let payload = canonical_event_payload_bytes(event);
    match verify_event_signature(&key, payload.as_slice(), event.signature.as_str()) {
        Err(m) => Err(KernelXError::InvalidState(m)),
        Ok(false) => Err(invalid("event signature verification failed")),
        Ok(true) => Ok(()),
    }
}

/// Canonical event validation: required fields, auth ratio range, shape, hash binding,
/// region-create rules and, for signed events, the actor's signature.
pub fn validate_event(event: &VectorEvent) -> (r: Result<(), KernelXError>)
    ensures
        match event_check(event@) {
            Ok(()) => r is Ok,
            Err(f) => r matches Err(e) && reports(e, f),
        },
{
    if is_blank(event.event_id.as_str()) {
        return Err(invalid("event_id is required"));
    }
    if is_blank(event.region_id.as_str()) {
        return Err(invalid("region_id is required"));
    }
    if is_blank(event.entity_id.as_str()) {
        return Err(invalid("entity_id is required"));
    }
    if is_blank(event.actor_public_key.as_str()) {
        return Err(invalid("actor_public_key is required"));
    }
    let bits = event.auth_ratio_bits;
    if !(bits <= 0x3FF0_0000_0000_0000u64 || bits == 0x8000_0000_0000_0000u64) {
        return Err(invalid("auth_ratio must be in [0, 1]"));
    }
    if event.vector_before.components.len() != event.vector_after.components.len() {
        return Err(KernelXError::DimensionMismatch);
    }
    let payload_hash = canonical_payload_hash(event);
    let event_hash = canonical_event_hash(event);
    if event.payload_hash != payload_hash {
        return Err(invalid("payload_hash mismatch"));
    }
    if event.event_hash != event_hash {
        return Err(invalid("event_hash mismatch"));
    }
    if is_region_create_event(event) {
        if is_blank(event.signature.as_str()) {
            return Err(invalid("region create event requires a signature"));
        }
        if event.parent_hashes.len() != 0 {
            return Err(invalid("region create event must be a root event"));
        }
        let tag_ok = match &event.operation {
            OperationType::Other(name) => *name == String::from_str(REGION_CREATE_OPERATION_NAME),
            _ => false,
        };
        if !tag_ok {
            return Err(invalid("region create event has invalid operation tag"));
        }
        return Ok(());
    }
    if !event.signature.as_str().is_empty() {
        return check_actor_signature(event.actor_public_key.as_str(), event);
    }
    Ok(())
}

/// Checks a detached event payload signature against a given hex key.
pub fn validate_event_signature(public_key_hex: &str, event: &VectorEvent) -> (r: Result<(), KernelXError>)
    ensures
        match actor_signature_check(public_key_hex.spec_bytes(), event@) {
            Ok(()) => r is Ok,
            Err(f) => r matches Err(e) && reports(e, f),
        },
{
    check_actor_signature(public_key_hex, event)
}

} // verus!
