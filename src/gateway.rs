//! The outcome of calling into a sandboxed handler.

use vstd::prelude::*;

verus! {

/// An error that a handler itself reports.
#[derive(Clone, Debug)]
pub enum HandlerError {
    Other(String),
}

/// What one call into a handler instance came to.
#[derive(Debug)]
pub enum InvocationResult {
    /// The handler ran and returned its own result.
    Returned(Result<(), HandlerError>),
    /// The sandbox could not load or instantiate the handler, or the handler
    /// crashed; the text describes what happened.
    SandboxFailed(String),
}

/// The result of handing one batch of envelopes to a handler.
#[derive(Clone, Debug)]
pub enum DispatchOutcome {
    Success,
    Failure(String),
}

/// The reason that an invocation result reports, when it reports a failure: a
/// handler's own error is reported as a failure to execute the guest.
pub open spec fn failure_reason(r: InvocationResult) -> Option<Seq<char>> {
    match r {
        InvocationResult::Returned(Ok(())) => None,
        InvocationResult::Returned(Err(HandlerError::Other(m))) => Some("failed to execute guest: "@ + m@),
        InvocationResult::SandboxFailed(m) => Some(m@),
    }
}

pub open spec fn outcome_reason(o: DispatchOutcome) -> Option<Seq<char>> {
    match o {
        DispatchOutcome::Success => None,
        DispatchOutcome::Failure(m) => Some(m@),
    }
}

/// Maps what came back from a handler to a dispatch outcome: a clean return is a
/// success, a reported error or a sandbox failure is a failure with its reason.
pub fn dispatch_outcome(r: InvocationResult) -> (o: DispatchOutcome)
    ensures
        outcome_reason(o) == failure_reason(r),
{
    match r {
        InvocationResult::Returned(Ok(())) => DispatchOutcome::Success,
        InvocationResult::Returned(Err(HandlerError::Other(m))) => {
            let mut reason = String::from_str("failed to execute guest: ");
            reason.append(m.as_str());
            DispatchOutcome::Failure(reason)
        },
        InvocationResult::SandboxFailed(m) => DispatchOutcome::Failure(m),
    }
}

} // verus!
