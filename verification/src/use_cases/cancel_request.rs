//! Cancelling a request.

use vstd::prelude::*;

use crate::domain::{
    AuditEvent, AuthUser, EventMetadata, Request, RequestStatus, ResourceContext, SubjectType,
    TransitionContext, TransitionEvent, TransitionReply,
};
use crate::error::{AppError, AuthzError, ErrorView};
use crate::ports::WebhookEvent;
use crate::services::audit_event_builder::{
    build_audit_event, build_webhook_event, noop_redact, notifies, records_unredacted,
    RedactionMode,
};
use crate::text::{byte_len, same_text, utf8_len};
use crate::time::Timestamp;

verus! {

/// Largest accepted reason, in bytes.
pub const MAX_CANCEL_REASON_BYTES: usize = 1024;

/// The use case with its settings.
pub struct CancelRequest {
    pub redaction_mode: RedactionMode,
}

/// What a caller submits.
pub struct CancelRequestInput {
    pub request_id: String,
    pub reason: Option<String>,
}

/// What the caller gets back.
pub struct CancelRequestOutput {
    pub id: String,
    pub status: RequestStatus,
}

/// Due: find the request.
pub struct CancelStart {
    pub input: CancelRequestInput,
    pub caller_id: String,
    pub caller_type: SubjectType,
    pub redaction_mode: RedactionMode,
}

/// Due: authorize the caller for `RequestCancel` on the request.
pub struct CancelAuthorizing {
    pub start: CancelStart,
    pub request: Request,
}

/// Due: the current time, then the transition by `Cancel`.
pub struct CancelTransition {
    pub start: CancelStart,
    pub request: Request,
}

/// One transaction: mark the request cancelled by the caller at `now`, for the
/// reason, then write the record.
pub struct CancelCommit {
    pub request_id: String,
    pub cancelled_by: String,
    pub reason: Option<String>,
    pub now: Timestamp,
    pub audit: AuditEvent,
    pub event: TransitionEvent,
}

/// Why a reason is refused.
pub open spec fn cancel_reason_error(reason: Option<String>) -> Option<ErrorView> {
    if reason is Some && utf8_len(reason->0@) > MAX_CANCEL_REASON_BYTES {
        Some(ErrorView::Validation("reason too long (max 1024 bytes)"@))
    } else {
        None
    }
}

impl CancelRequest {
    /// Starts a cancellation.
    pub fn execute(&self, input: CancelRequestInput, user: &AuthUser) -> (r: Result<
        CancelStart,
        AppError,
    >)
        ensures
            match r {
                Err(e) => cancel_reason_error(input.reason) == Some(e@),
                Ok(s) => {
                    &&& cancel_reason_error(input.reason) is None
                    &&& s.input == input
                    &&& s.caller_id == user.subject_id
                    &&& s.caller_type == user.subject_type
                    &&& s.redaction_mode == self.redaction_mode
                },
            },
    {
        match &input.reason {
            Some(reason) => {
                if byte_len(reason.as_str()) > MAX_CANCEL_REASON_BYTES {
                    return Err(
                        AppError::Validation("reason too long (max 1024 bytes)".to_string()),
                    );
                }
            },
            None => {},
        }
        Ok(
            CancelStart {
                input,
                caller_id: user.subject_id.clone(),
                caller_type: user.subject_type,
                redaction_mode: self.redaction_mode,
            },
        )
    }
}

impl CancelStart {
    /// Takes the request.
    pub fn found(self, request: Option<Request>) -> (r: Result<CancelAuthorizing, AppError>)
        ensures
            match request {
                None => r matches Err(e) && e@ == ErrorView::NotFound("request not found"@),
                Some(q) => r matches Ok(s) && s.start == self && s.request == q,
            },
    {
        match request {
            None => Err(AppError::NotFound("request not found".to_string())),
            Some(request) => Ok(CancelAuthorizing { start: self, request }),
        }
    }
}

impl CancelAuthorizing {
    /// The resource that the authorization is asked for.
    pub fn context(&self) -> (r: ResourceContext)
        ensures
            r == (ResourceContext::RequestMutate { requester_id: self.request.requester }),
    {
        ResourceContext::RequestMutate { requester_id: self.request.requester.clone() }
    }

    /// Takes the answer of the authorizer. Whoever cancels the request of
    /// another gives a reason.
    pub fn authorized(self, reply: Result<(), AuthzError>) -> (r: Result<CancelTransition, AppError>)
        ensures
            match reply {
                Err(e) => r matches Err(x) && x@ == ErrorView::Forbidden(e@),
                Ok(_) => if self.start.caller_id@ != self.request.requester@
                    && self.start.input.reason is None {
                    r matches Err(x) && x@ == ErrorView::Validation(
                        "reason required for non-owner cancel"@,
                    )
                } else {
                    r matches Ok(s) && s.start == self.start && s.request == self.request
                },
            },
    {
        match reply {
            Err(e) => Err(AppError::Forbidden(e)),
            Ok(_) => {
                if !same_text(self.start.caller_id.as_str(), self.request.requester.as_str())
                    && self.start.input.reason.is_none() {
                    return Err(
                        AppError::Validation("reason required for non-owner cancel".to_string()),
                    );
                }
                Ok(CancelTransition { start: self.start, request: self.request })
            },
        }
    }
}

impl CancelTransition {
    /// What the transition is asked for with.
    pub fn context(&self, now: Timestamp) -> (r: TransitionContext)
        ensures
            r.request_id == self.request.id,
            r.actor_id == self.start.caller_id,
            r.actor_type == self.start.caller_type,
            r.database == self.request.database,
            r.environment == self.request.environment,
            r.operation == self.request.operation,
            r.timestamp == now,
            r.metadata == (EventMetadata::Cancelled { reason: self.start.input.reason }),
            r.requester_id == self.request.requester,
    {
        TransitionContext {
            request_id: self.request.id.clone(),
            actor_id: self.start.caller_id.clone(),
            actor_type: self.start.caller_type,
            database: self.request.database.clone(),
            environment: self.request.environment.clone(),
            operation: self.request.operation,
            timestamp: now,
            metadata: EventMetadata::Cancelled { reason: self.start.input.reason.clone() },
            requester_id: self.request.requester.clone(),
        }
    }

    /// Takes the answer of the status machine.
    pub fn transitioned(self, now: Timestamp, reply: TransitionReply) -> (r: Result<
        CancelCommit,
        AppError,
    >)
        ensures
            match reply {
                Err(e) => r matches Err(x) && x@ == ErrorView::Conflict(e@),
                Ok(event) => r matches Ok(c) && {
                    &&& c.request_id == self.request.id
                    &&& c.cancelled_by == self.start.caller_id
                    &&& c.reason == self.start.input.reason
                    &&& c.now == now
                    &&& records_unredacted(c.audit, event, now, self.start.redaction_mode)
                    &&& c.event == event
                },
            },
    {
        match reply {
            Err(e) => Err(AppError::Conflict(e)),
            Ok(event) => {
                let audit = build_audit_event(&event, now, self.start.redaction_mode, noop_redact);
                Ok(
                    CancelCommit {
                        request_id: self.request.id,
                        cancelled_by: self.start.caller_id,
                        reason: self.start.input.reason,
                        now,
                        audit,
                        event,
                    },
                )
            },
        }
    }
}

/// Whether a transaction goes on after the status of the request was changed.
pub fn status_marked(updated: bool) -> (r: Result<(), AppError>)
    ensures
        match r {
            Ok(_) => updated,
            Err(e) => !updated && e@ == ErrorView::Conflict("concurrent status change"@),
        },
{
    if updated {
        Ok(())
    } else {
        Err(AppError::Conflict("concurrent status change".to_string()))
    }
}

impl CancelCommit {
    /// The answer and the notification once the transaction is committed.
    pub fn committed(self) -> (r: (CancelRequestOutput, WebhookEvent))
        ensures
            r.0.id == self.request_id,
            r.0.status == RequestStatus::Cancelled,
            notifies(r.1, self.event),
    {
        let notice = build_webhook_event(&self.event);
        (CancelRequestOutput { id: self.request_id, status: RequestStatus::Cancelled }, notice)
    }
}

/// Reasons have at most 1024 bytes.
pub proof fn long_reasons_are_refused(
    uc: CancelRequest,
    input: CancelRequestInput,
    user: AuthUser,
    r: Result<CancelStart, AppError>,
)
    requires
        call_ensures(CancelRequest::execute, (&uc, input, &user), r),
    ensures
        r is Ok <==> input.reason is None || utf8_len(input.reason->0@) <= 1024,
        r is Err ==> r->Err_0 is Validation,
        r is Ok ==> r->Ok_0.input == input && r->Ok_0.caller_id == user.subject_id
            && r->Ok_0.caller_type == user.subject_type,
{
}

/// A request is cancelled only with authorization, and by another than its
/// requester only with a reason.
pub proof fn cancelling_for_others_needs_a_reason(
    stage: CancelAuthorizing,
    context: ResourceContext,
    reply: Result<(), AuthzError>,
    r: Result<CancelTransition, AppError>,
)
    requires
        call_ensures(CancelAuthorizing::context, (&stage,), context),
        call_ensures(CancelAuthorizing::authorized, (stage, reply), r),
    ensures
        context == (ResourceContext::RequestMutate { requester_id: stage.request.requester }),
        r is Ok <==> reply is Ok && (stage.start.caller_id@ == stage.request.requester@
            || stage.start.input.reason is Some),
        reply is Err ==> r is Err && r->Err_0 is Forbidden,
        reply is Ok && r is Err ==> r->Err_0 is Validation,
        r is Ok ==> r->Ok_0.start == stage.start && r->Ok_0.request == stage.request,
{
}

/// A request that is not found cannot be cancelled.
pub proof fn unknown_requests_are_not_cancelled(
    stage: CancelStart,
    request: Option<Request>,
    r: Result<CancelAuthorizing, AppError>,
)
    requires
        call_ensures(CancelStart::found, (stage, request), r),
    ensures
        r is Ok <==> request is Some,
        r is Err ==> r->Err_0 is NotFound,
        r is Ok ==> r->Ok_0.start == stage && r->Ok_0.request == request->0,
{
}

/// A cancelled request is cancelled by the caller, for the reason given.
pub proof fn cancellations_name_caller_and_reason(
    stage: CancelTransition,
    now: Timestamp,
    context: TransitionContext,
    reply: TransitionReply,
    r: Result<CancelCommit, AppError>,
)
    requires
        call_ensures(CancelTransition::context, (&stage, now), context),
        call_ensures(CancelTransition::transitioned, (stage, now, reply), r),
    ensures
        context.request_id == stage.request.id,
        context.actor_id == stage.start.caller_id,
        context.metadata == (EventMetadata::Cancelled { reason: stage.start.input.reason }),
        context.timestamp == now,
        r is Ok <==> reply is Ok,
        r is Err ==> r->Err_0 is Conflict,
        r matches Ok(c) ==> {
            &&& c.request_id == stage.request.id
            &&& c.cancelled_by == stage.start.caller_id
            &&& c.reason == stage.start.input.reason
            &&& c.now == now
            &&& c.event == reply->Ok_0
        },
{
}

/// A request that has left its status meanwhile is not cancelled; one that was
/// is told to be.
pub proof fn cancelled_requests_are_answered(
    updated: bool,
    m: Result<(), AppError>,
    commit: CancelCommit,
    r: (CancelRequestOutput, WebhookEvent),
)
    requires
        call_ensures(status_marked, (updated,), m),
        call_ensures(CancelCommit::committed, (commit,), r),
    ensures
        m is Ok <==> updated,
        m is Err ==> m->Err_0 is Conflict,
        r.0.status == RequestStatus::Cancelled,
        r.0.id == commit.request_id,
        r.1.request_id == Some(commit.event.request_id),
{
}

/// A caller is told why a request is not cancelled.
pub proof fn callers_are_told_why_nothing_is_cancelled(
    uc: CancelRequest,
    input: CancelRequestInput,
    user: AuthUser,
    e: AppError,
    stage: CancelAuthorizing,
    x: AppError,
    y: AppError,
)
    requires
        call_ensures(
            CancelRequest::execute,
            (&uc, input, &user),
            Err::<CancelStart, AppError>(e),
        ),
        call_ensures(
            CancelAuthorizing::authorized,
            (stage, Ok::<(), AuthzError>(())),
            Err::<CancelTransition, AppError>(x),
        ),
        call_ensures(status_marked, (false,), Err::<(), AppError>(y)),
    ensures
        e@ == ErrorView::Validation("reason too long (max 1024 bytes)"@),
        x@ == ErrorView::Validation("reason required for non-owner cancel"@),
        y@ == ErrorView::Conflict("concurrent status change"@),
{
}

} // verus!
