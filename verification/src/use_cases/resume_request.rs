//! Resuming a request: it follows the course of a dispatch.

use vstd::prelude::*;

use crate::domain::{AuthUser, RequestStatus};
use crate::use_cases::dispatch_request::{DispatchKind, DispatchStart, Dispatched};

verus! {

/// The use case.
pub struct ResumeRequest {}

/// What a caller submits.
pub struct ResumeRequestInput {
    pub request_id: String,
}

/// What the caller gets back.
pub struct ResumeRequestOutput {
    pub id: String,
    pub status: RequestStatus,
}

impl ResumeRequest {
    /// Starts a resumption. Due: find the request.
    pub fn execute(&self, input: ResumeRequestInput, user: &AuthUser) -> (r: DispatchStart)
        ensures
            r.kind == DispatchKind::Resume,
            r.request_id == input.request_id,
            r.caller_id == user.subject_id,
            r.caller_type == user.subject_type,
    {
        DispatchStart {
            kind: DispatchKind::Resume,
            request_id: input.request_id,
            caller_id: user.subject_id.clone(),
            caller_type: user.subject_type,
        }
    }
}

impl ResumeRequestOutput {
    /// The answer of a resumption that was dispatched.
    pub fn of(d: &Dispatched) -> (r: ResumeRequestOutput)
        ensures
            r.id == d.output.id,
            r.status == d.output.status,
    {
        ResumeRequestOutput { id: d.output.id.clone(), status: d.output.status }
    }
}

/// Resuming is told apart from dispatching, and answered as it ended.
pub proof fn resumptions_are_of_the_caller(
    uc: ResumeRequest,
    input: ResumeRequestInput,
    user: AuthUser,
    start: DispatchStart,
    done: Dispatched,
    output: ResumeRequestOutput,
)
    requires
        call_ensures(ResumeRequest::execute, (&uc, input, &user), start),
        call_ensures(ResumeRequestOutput::of, (&done,), output),
    ensures
        start.kind == DispatchKind::Resume,
        start.request_id == input.request_id,
        start.caller_id == user.subject_id,
        start.caller_type == user.subject_type,
        output.id == done.output.id,
        output.status == done.output.status,
{
}

} // verus!
