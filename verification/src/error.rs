use vstd::prelude::*;
use vstd::string::StringExecFns;
use crate::text::concat2;

verus! {

/// Failure categories of the kernel.
#[derive(Debug, Clone)]
pub enum KernelXError {
    ZeroNormalization,
    NotCertified,
    InvalidState(String),
    Signature,
    WalletNotFound,
    VectorNotFound,
    InsufficientBalance,
    DimensionMismatch,
    Rejected(String),
    Storage(String),
    OriginRejected,
    SettlementRejected(String),
    Replay(String),
    Snapshot(String),
    Serialization(String),
    Validation(String),
}

/// `r` is an `InvalidState` error with message `m`.
pub open spec fn invalid_state<T>(r: Result<T, KernelXError>, m: Seq<char>) -> bool {
    match r {
        Err(KernelXError::InvalidState(e)) => e@ == m,
        _ => false,
    }
}


/// The text an error displays as.
pub open spec fn error_text(e: KernelXError) -> Seq<char> {
    match e {
        KernelXError::ZeroNormalization => "zero vector cannot be normalized"@,
        KernelXError::NotCertified => "vector not certified"@,
        KernelXError::InvalidState(m) => "invalid vector state: "@ + m@,
        KernelXError::Signature => "signature verification failed"@,
        KernelXError::WalletNotFound => "wallet not found"@,
        KernelXError::VectorNotFound => "vector not found"@,
        KernelXError::InsufficientBalance => "insufficient balance"@,
        KernelXError::DimensionMismatch => "dimension mismatch"@,
        KernelXError::Rejected(m) => "operation rejected: "@ + m@,
        KernelXError::Storage(m) => "storage error: "@ + m@,
        KernelXError::OriginRejected => "origin proof rejected"@,
        KernelXError::SettlementRejected(m) => "settlement rejected: "@ + m@,
        KernelXError::Replay(m) => "replay failed: "@ + m@,
        KernelXError::Snapshot(m) => "snapshot error: "@ + m@,
        KernelXError::Serialization(m) => "serialization error: "@ + m@,
        KernelXError::Validation(m) => "validation error: "@ + m@,
    }
}

impl KernelXError {
    /// The text the error displays as.
    pub fn message(&self) -> (r: String)
        ensures r@ == error_text(*self),
    {
        match self {
            KernelXError::ZeroNormalization => String::from_str("zero vector cannot be normalized"),
            KernelXError::NotCertified => String::from_str("vector not certified"),
            KernelXError::InvalidState(m) => concat2("invalid vector state: ", m.as_str()),
            KernelXError::Signature => String::from_str("signature verification failed"),
            KernelXError::WalletNotFound => String::from_str("wallet not found"),
            KernelXError::VectorNotFound => String::from_str("vector not found"),
            KernelXError::InsufficientBalance => String::from_str("insufficient balance"),
            KernelXError::DimensionMismatch => String::from_str("dimension mismatch"),
            KernelXError::Rejected(m) => concat2("operation rejected: ", m.as_str()),
            KernelXError::Storage(m) => concat2("storage error: ", m.as_str()),
            KernelXError::OriginRejected => String::from_str("origin proof rejected"),
            KernelXError::SettlementRejected(m) => concat2("settlement rejected: ", m.as_str()),
            KernelXError::Replay(m) => concat2("replay failed: ", m.as_str()),
            KernelXError::Snapshot(m) => concat2("snapshot error: ", m.as_str()),
            KernelXError::Serialization(m) => concat2("serialization error: ", m.as_str()),
            KernelXError::Validation(m) => concat2("validation error: ", m.as_str()),
        }
    }
}

} // verus!
