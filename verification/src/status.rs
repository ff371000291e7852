//! Error kinds raised by the runtime and their mapping to HTTP status codes.

use vstd::prelude::*;

verus! {

/// Failure of an invocation, as seen by the proxy front-end.
#[derive(Clone, Copy, PartialEq, Eq, Structural, Debug)]
pub enum InvokeError {
    /// No worker is registered under the requested key.
    UnknownKey,
    /// The worker's inbox is closed: the worker is gone.
    WorkerGone,
    /// The worker dropped the response channel without answering.
    WorkerAborted,
    /// The guest handler reported a structured error (traps included).
    GuestFailure,
    /// The request target could not be rewritten into a valid URI.
    MalformedUri,
}

/// Failure of a deploy, as seen by the admin front-end.
#[derive(Clone, Copy, PartialEq, Eq, Structural, Debug)]
pub enum DeployError {
    /// Compiling or instantiating the module failed; the registry is untouched.
    CompileFailed,
    /// Persisting the artifact to the object store failed; the registry is untouched.
    StoreFailed,
}

/// HTTP status reported for each invocation failure.
pub open spec fn invoke_error_status_spec(e: InvokeError) -> u16 {
    match e {
        InvokeError::UnknownKey => 404u16,
        InvokeError::WorkerGone => 503u16,
        InvokeError::WorkerAborted => 503u16,
        InvokeError::GuestFailure => 500u16,
        InvokeError::MalformedUri => 400u16,
    }
}

/// Map an invocation failure to the status code the proxy returns.
pub fn invoke_error_status(e: &InvokeError) -> (s: u16)
    ensures
        s == invoke_error_status_spec(*e),
{
    match e {
        InvokeError::UnknownKey => 404,
        InvokeError::WorkerGone => 503,
        InvokeError::WorkerAborted => 503,
        InvokeError::GuestFailure => 500,
        InvokeError::MalformedUri => 400,
    }
}

/// Every deploy failure surfaces as an internal server error.
pub fn deploy_error_status(e: &DeployError) -> (s: u16)
    ensures
        s == 500u16,
{
    match e {
        DeployError::CompileFailed => 500,
        DeployError::StoreFailed => 500,
    }
}

} // verus!
