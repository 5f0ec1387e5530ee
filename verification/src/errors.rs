//! Error kinds surfaced by the agent's query operations.

use vstd::prelude::*;

verus! {

/// Every way a query or an ingestion step can fail.  Range, identity and
/// encoding errors are final; an upstream failure is safe to retry, since
/// ingestion is idempotent.
#[derive(Clone, Copy, Debug, PartialEq, Eq, Structural)]
pub enum AgentError {
    /// A requested event-log slice lies outside the visible log's bounds.
    InvalidRange,
    /// The requested container identity is not in the registry.
    ContainerNotFound,
    /// The isolation policy forbids the requested register scope.
    AccessDenied,
    /// A caller-supplied nonce was not valid base64.
    MalformedNonce,
    /// The platform attestation primitive or log source failed.
    UpstreamUnavailable,
    /// A canonical-form log entry was encountered; no handling is defined.
    UnsupportedLogEntry,
    /// An IMA event body was not UTF-8 or had the wrong field count;
    /// classification of that entry is skipped, ingestion continues.
    MalformedLogEntry,
}

impl AgentError {
    /// A fixed description of the error, for callers that report it.
    pub fn message(&self) -> &'static str {
        match self {
            AgentError::InvalidRange => "invalid range: start and count must lie within the event log",
            AgentError::ContainerNotFound => "container cannot be found",
            AgentError::AccessDenied => "cannot access IMR according to the policy",
            AgentError::MalformedNonce => "nonce is not base64 encoded",
            AgentError::UpstreamUnavailable => "platform attestation primitive is unavailable",
            AgentError::UnsupportedLogEntry => "canonical event log entries are not supported",
            AgentError::MalformedLogEntry => "malformed IMA event body",
        }
    }
}

} // verus!
