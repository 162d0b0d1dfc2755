//! Error types of the library.
use vstd::prelude::*;

verus! {

/// A failure reported by an LLM provider.
#[derive(Debug)]
pub enum ProviderError {
    /// The request could not be made or completed.
    Request(String),
    /// The provider answered with a non-success status.
    ApiError { status: u16, body: String },
    /// The provider does not offer this feature.
    NotSupported,
    /// The provider's answer could not be read.
    Parse(String),
}

#[verifier::external_type_specification]
#[verifier::external_body]
pub struct ExIoError(std::io::Error);

#[verifier::external_type_specification]
#[verifier::external_body]
pub struct ExJsonError(serde_json::Error);

/// The crate-level error.
#[derive(Debug)]
pub enum MossError {
    Provider(ProviderError),
    Solver { gap_id: u128, reason: String },
    DefenseRejection { reason: String },
    Blackboard(String),
    /// Blocked gaps remain but no gap is ready or assigned.
    Deadlock,
    SessionExpired,
    Io(std::io::Error),
    Json(serde_json::Error),
}

} // verus!
