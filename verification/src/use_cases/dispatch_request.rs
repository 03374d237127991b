//! Handing an approved request to the agents, for the first time or again.

use vstd::prelude::*;

use crate::domain::{
    AuthUser, DeliveryMode, EventMetadata, ExecutionPolicy, Permission, Request, RequestStatus,
    ResourceContext, ResultPolicy, SubjectType, TransitionContext, TransitionEvent, TransitionReply,
    Workflow,
};
use crate::error::{AppError, AuthzError, ErrorView};
use crate::time::{elapsed_exceeds, exceeds_elapsed, Timestamp};
use crate::use_cases::cancel_request::status_marked;

verus! {

/// Whether a request is dispatched or resumed. Both follow the same course;
/// they differ in the permission they need and in the order of the limits.
#[derive(Clone, Copy, Debug, PartialEq, Eq, Structural)]
pub enum DispatchKind {
    Dispatch,
    Resume,
}

/// The use case.
pub struct DispatchRequest {}

/// What a caller submits.
pub struct DispatchRequestInput {
    pub request_id: String,
}

/// What the caller gets back.
pub struct DispatchRequestOutput {
    pub id: String,
    pub status: RequestStatus,
}

/// Due: find the request.
pub struct DispatchStart {
    pub kind: DispatchKind,
    pub request_id: String,
    pub caller_id: String,
    pub caller_type: SubjectType,
}

/// A dispatch of a known request.
pub struct DispatchCase {
    pub kind: DispatchKind,
    pub caller_id: String,
    pub caller_type: SubjectType,
    pub request: Request,
}

/// Due: authorize the caller for the permission on the request.
pub struct DispatchAuthorizing {
    pub case: DispatchCase,
}

/// Due: the current time, then the transition by `Dispatch`.
pub struct DispatchTransition {
    pub case: DispatchCase,
}

/// Due: the workflow of the request where `needs_workflow` says so, and the
/// current time.
pub struct ApprovalAge {
    pub case: DispatchCase,
    pub now: Timestamp,
    pub event: TransitionEvent,
}

/// Due: the execution policy, how often the request was executed, and the
/// current time.
pub struct ExecutionBudget {
    pub case: DispatchCase,
    pub now: Timestamp,
    pub event: TransitionEvent,
}

/// Due: mark the request dispatched at `now`.
pub struct DispatchMarking {
    pub case: DispatchCase,
    pub now: Timestamp,
    pub event: TransitionEvent,
}

impl DispatchRequest {
    /// Starts a dispatch.
    pub fn execute(&self, input: DispatchRequestInput, user: &AuthUser) -> (r: DispatchStart)
        ensures
            r.kind == DispatchKind::Dispatch,
            r.request_id == input.request_id,
            r.caller_id == user.subject_id,
            r.caller_type == user.subject_type,
    {
        DispatchStart {
            kind: DispatchKind::Dispatch,
            request_id: input.request_id,
            caller_id: user.subject_id.clone(),
            caller_type: user.subject_type,
        }
    }
}

impl DispatchStart {
    /// Takes the request.
    pub fn found(self, request: Option<Request>) -> (r: Result<DispatchAuthorizing, AppError>)
        ensures
            match request {
                None => r matches Err(e) && e@ == ErrorView::NotFound("request not found"@),
                Some(q) => r matches Ok(s) && {
                    &&& s.case.kind == self.kind
                    &&& s.case.caller_id == self.caller_id
                    &&& s.case.caller_type == self.caller_type
                    &&& s.case.request == q
                },
            },
    {
        match request {
            None => Err(AppError::NotFound("request not found".to_string())),
            Some(request) => Ok(
                DispatchAuthorizing {
                    case: DispatchCase {
                        kind: self.kind,
                        caller_id: self.caller_id,
                        caller_type: self.caller_type,
                        request,
                    },
                },
            ),
        }
    }
}

impl DispatchAuthorizing {
    /// The permission that the caller needs.
    pub fn permission(&self) -> (r: Permission)
        ensures
            r == (match self.case.kind {
                DispatchKind::Dispatch => Permission::RequestDispatch,
                DispatchKind::Resume => Permission::RequestResume,
            }),
    {
        match self.case.kind {
            DispatchKind::Dispatch => Permission::RequestDispatch,
            DispatchKind::Resume => Permission::RequestResume,
        }
    }

    /// The resource that the authorization is asked for.
    pub fn context(&self) -> (r: ResourceContext)
        ensures
            r == (ResourceContext::Request { requester_id: self.case.request.requester }),
    {
        ResourceContext::Request { requester_id: self.case.request.requester.clone() }
    }

    /// Takes the answer of the authorizer.
    pub fn authorized(self, reply: Result<(), AuthzError>) -> (r: Result<
        DispatchTransition,
        AppError,
    >)
        ensures
            match reply {
                Err(e) => r matches Err(x) && x@ == ErrorView::Forbidden(e@),
                Ok(_) => r matches Ok(s) && s.case == self.case,
            },
    {
        match reply {
            Err(e) => Err(AppError::Forbidden(e)),
            Ok(_) => Ok(DispatchTransition { case: self.case }),
        }
    }
}

impl DispatchTransition {
    /// What the transition is asked for with.
    pub fn context(&self, now: Timestamp) -> (r: TransitionContext)
        ensures
            r.request_id == self.case.request.id,
            r.actor_id == self.case.caller_id,
            r.actor_type == self.case.caller_type,
            r.database == self.case.request.database,
            r.environment == self.case.request.environment,
            r.operation == self.case.request.operation,
            r.timestamp == now,
            r.metadata == EventMetadata::Dispatched,
            r.requester_id == self.case.request.requester,
    {
        TransitionContext {
            request_id: self.case.request.id.clone(),
            actor_id: self.case.caller_id.clone(),
            actor_type: self.case.caller_type,
            database: self.case.request.database.clone(),
            environment: self.case.request.environment.clone(),
            operation: self.case.request.operation,
            timestamp: now,
            metadata: EventMetadata::Dispatched,
            requester_id: self.case.request.requester.clone(),
        }
    }

    /// Takes the answer of the status machine.
    pub fn transitioned(self, now: Timestamp, reply: TransitionReply) -> (r: Result<
        ApprovalAge,
        AppError,
    >)
        ensures
            match reply {
                Err(e) => r matches Err(x) && x@ == ErrorView::Conflict(e@),
                Ok(event) => r matches Ok(s) && s.case == self.case && s.now == now && s.event
                    == event,
            },
    {
        match reply {
            Err(e) => Err(AppError::Conflict(e)),
            Ok(event) => Ok(ApprovalAge { case: self.case, now, event }),
        }
    }
}

/// Whether the approval of a request is too old: its workflow limits the age
/// and the request was approved longer ago. A workflow that cannot be read
/// limits nothing.
pub open spec fn approval_expired(request: Request, workflow: Option<Workflow>, at: Timestamp) -> bool {
    match (request.resolved_at, workflow) {
        (Some(resolved_at), Some(wf)) => request.workflow_snapshot_json is Some
            && wf.approval_ttl_secs is Some && elapsed_exceeds(
            at,
            resolved_at,
            wf.approval_ttl_secs->0,
        ),
        _ => false,
    }
}

impl ApprovalAge {
    /// Whether the workflow of the request is needed.
    pub fn needs_workflow(&self) -> (r: bool)
        ensures
            r == (self.case.request.resolved_at is Some
                && self.case.request.workflow_snapshot_json is Some),
    {
        self.case.request.resolved_at.is_some() && self.case.request.workflow_snapshot_json.is_some()
    }

    /// Takes the workflow, if it could be read, and the current time.
    pub fn aged(self, workflow: Option<Workflow>, at: Timestamp) -> (r: Result<
        ExecutionBudget,
        AppError,
    >)
        ensures
            if approval_expired(self.case.request, workflow, at) {
                r matches Err(e) && e@ == ErrorView::Gone("approval expired"@)
            } else {
                r matches Ok(s) && s.case == self.case && s.now == self.now && s.event
                    == self.event
            },
    {
        if self.needs_workflow() {
            match (&self.case.request.resolved_at, &workflow) {
                (Some(resolved_at), Some(wf)) => match wf.approval_ttl_secs {
                    Some(ttl) => {
                        if exceeds_elapsed(&at, resolved_at, ttl) {
                            return Err(AppError::Gone("approval expired".to_string()));
                        }
                    },
                    None => {},
                },
                _ => {},
            }
        }
        Ok(ExecutionBudget { case: self.case, now: self.now, event: self.event })
    }
}

/// Whether a request has run before.
pub open spec fn ran_before(status: RequestStatus) -> bool {
    status is Executed || status is Failed || status is ExecutionLost
}

/// Whether the window in which a request may run again is over.
pub open spec fn window_over(request: Request, policy: ExecutionPolicy, at: Timestamp) -> bool {
    request.resolved_at is Some && elapsed_exceeds(
        at,
        request.resolved_at->0,
        policy.execution_window_secs,
    )
}

/// Why the execution policy stops a dispatch. Resuming counts every execution
/// first; dispatching looks at the policy only where the request ran before,
/// and at the window first.
pub open spec fn budget_error(
    case: DispatchCase,
    policy: ExecutionPolicy,
    executions: u32,
    at: Timestamp,
) -> Option<ErrorView> {
    let spent = executions >= policy.max_executions;
    let again = ran_before(case.request.status);
    let over = window_over(case.request, policy, at);
    let no_retry = !policy.retry_on_failure && case.request.status is Failed;
    match case.kind {
        DispatchKind::Resume => if spent {
            Some(ErrorView::Conflict("max executions reached"@))
        } else if again && over {
            Some(ErrorView::Gone("execution window expired"@))
        } else if again && no_retry {
            Some(ErrorView::Conflict("retry on failure disabled"@))
        } else {
            None
        },
        DispatchKind::Dispatch => if again && over {
            Some(ErrorView::Gone("execution window expired"@))
        } else if again && spent {
            Some(ErrorView::Conflict("max executions reached"@))
        } else if again && no_retry {
            Some(ErrorView::Conflict("retry on failure disabled"@))
        } else {
            None
        },
    }
}

impl ExecutionBudget {
    /// Whether the execution policy is looked at.
    pub fn needs_policy(&self) -> (r: bool)
        ensures
            r == (self.case.kind is Resume || ran_before(self.case.request.status)),
    {
        self.case.kind == DispatchKind::Resume || self.again()
    }

    fn again(&self) -> (r: bool)
        ensures
            r == ran_before(self.case.request.status),
    {
        match self.case.request.status {
            RequestStatus::Executed => true,
            RequestStatus::Failed => true,
            RequestStatus::ExecutionLost => true,
            _ => false,
        }
    }

    /// Takes the execution policy, how often the request was executed, and the
    /// current time.
    pub fn budgeted(self, policy: &ExecutionPolicy, executions: u32, at: Timestamp) -> (r: Result<
        DispatchMarking,
        AppError,
    >)
        ensures
            match r {
                Err(e) => budget_error(self.case, *policy, executions, at) == Some(e@),
                Ok(s) => {
                    &&& budget_error(self.case, *policy, executions, at) is None
                    &&& s.case == self.case
                    &&& s.now == self.now
                    &&& s.event == self.event
                },
            },
    {
        let spent: bool = executions >= policy.max_executions;
        let again: bool = self.again();
        if self.case.kind == DispatchKind::Resume && spent {
            return Err(AppError::Conflict("max executions reached".to_string()));
        }
        if again {
            match &self.case.request.resolved_at {
                Some(resolved_at) => {
                    if exceeds_elapsed(&at, resolved_at, policy.execution_window_secs) {
                        return Err(AppError::Gone("execution window expired".to_string()));
                    }
                },
                None => {},
            }
            if spent {
                return Err(AppError::Conflict("max executions reached".to_string()));
            }
            if !policy.retry_on_failure && self.case.request.status == RequestStatus::Failed {
                return Err(AppError::Conflict("retry on failure disabled".to_string()));
            }
        }
        Ok(DispatchMarking { case: self.case, now: self.now, event: self.event })
    }

    /// Goes on where the policy is not looked at.
    pub fn unbudgeted(self) -> (r: DispatchMarking)
        requires
            self.case.kind is Dispatch,
            !ran_before(self.case.request.status),
        ensures
            r.case == self.case,
            r.now == self.now,
            r.event == self.event,
    {
        DispatchMarking { case: self.case, now: self.now, event: self.event }
    }
}

/// A dispatched request. Due: the result policy where the request is resumed;
/// then open a slot for waiting readers where `slot` says so, and dispatch the
/// event.
pub struct DispatchSlot {
    pub kind: DispatchKind,
    pub request: Request,
    pub event: TransitionEvent,
}

/// What a dispatch ends with: the answer, whether waiting readers get a slot,
/// and the event.
pub struct Dispatched {
    pub output: DispatchRequestOutput,
    pub create_slot: bool,
    pub event: TransitionEvent,
}

impl DispatchMarking {
    /// Takes whether the request was marked.
    pub fn marked(self, updated: bool) -> (r: Result<DispatchSlot, AppError>)
        ensures
            match r {
                Err(e) => !updated && e@ == ErrorView::Conflict("concurrent status change"@),
                Ok(s) => updated && s.kind == self.case.kind && s.request == self.case.request
                    && s.event == self.event,
            },
    {
        match status_marked(updated) {
            Err(e) => Err(e),
            Ok(_) => Ok(
                DispatchSlot {
                    kind: self.case.kind,
                    request: self.case.request,
                    event: self.event,
                },
            ),
        }
    }
}

/// Whether waiting readers get a slot: not where a resumed request has a policy
/// that only stores. A policy that cannot be found changes nothing.
pub open spec fn opens_slot(
    kind: DispatchKind,
    policy: Result<Option<ResultPolicy>, AppError>,
) -> bool {
    match (kind, policy) {
        (DispatchKind::Resume, Ok(Some(p))) => !(p.delivery_mode is StoreOnly),
        _ => true,
    }
}

impl DispatchSlot {
    /// Takes the result policy.
    pub fn finish(self, policy: Result<Option<ResultPolicy>, AppError>) -> (r: Dispatched)
        ensures
            r.output.id == self.request.id,
            r.output.status == RequestStatus::Dispatched,
            r.create_slot == opens_slot(self.kind, policy),
            r.event == self.event,
    {
        let create_slot: bool = match (self.kind, policy) {
            (DispatchKind::Resume, Ok(Some(p))) => p.delivery_mode != DeliveryMode::StoreOnly,
            _ => true,
        };
        Dispatched {
            output: DispatchRequestOutput {
                id: self.request.id,
                status: RequestStatus::Dispatched,
            },
            create_slot,
            event: self.event,
        }
    }
}

/// Neither way runs a request more often than its policy allows once it has run
/// before, outside its window, or again after a failure where that is off.
pub proof fn rerun_respects_policy(
    case: DispatchCase,
    policy: ExecutionPolicy,
    executions: u32,
    at: Timestamp,
)
    requires
        budget_error(case, policy, executions, at) is None,
        ran_before(case.request.status),
    ensures
        executions < policy.max_executions,
        !window_over(case.request, policy, at),
        case.request.status is Failed ==> policy.retry_on_failure,
{
}

/// Whatever resuming lets through, dispatching lets through too.
pub proof fn resuming_is_stricter(
    case: DispatchCase,
    other: DispatchCase,
    policy: ExecutionPolicy,
    executions: u32,
    at: Timestamp,
)
    requires
        case.kind is Resume,
        other.kind is Dispatch,
        other.request == case.request,
        budget_error(case, policy, executions, at) is None,
    ensures
        budget_error(other, policy, executions, at) is None,
{
}

/// Dispatching and resuming each need their own permission, on the request of
/// its requester, and without it nothing happens.
pub proof fn each_way_needs_its_permission(
    stage: DispatchAuthorizing,
    permission: Permission,
    context: ResourceContext,
    reply: Result<(), AuthzError>,
    r: Result<DispatchTransition, AppError>,
)
    requires
        call_ensures(DispatchAuthorizing::permission, (&stage,), permission),
        call_ensures(DispatchAuthorizing::context, (&stage,), context),
        call_ensures(DispatchAuthorizing::authorized, (stage, reply), r),
    ensures
        permission == Permission::RequestResume <==> stage.case.kind == DispatchKind::Resume,
        permission == Permission::RequestDispatch <==> stage.case.kind == DispatchKind::Dispatch,
        context == (ResourceContext::Request { requester_id: stage.case.request.requester }),
        r is Ok <==> reply is Ok,
        r is Err ==> r->Err_0 is Forbidden,
        r is Ok ==> r->Ok_0.case == stage.case,
{
}

/// What starts is what was asked for, of the caller.
pub proof fn dispatches_are_of_the_caller(
    uc: DispatchRequest,
    input: DispatchRequestInput,
    user: AuthUser,
    start: DispatchStart,
    request: Option<Request>,
    r: Result<DispatchAuthorizing, AppError>,
)
    requires
        call_ensures(DispatchRequest::execute, (&uc, input, &user), start),
        call_ensures(DispatchStart::found, (start, request), r),
    ensures
        start.kind == DispatchKind::Dispatch,
        start.request_id == input.request_id,
        r is Ok <==> request is Some,
        r is Err ==> r->Err_0 is NotFound,
        r matches Ok(s) ==> s.case.kind == DispatchKind::Dispatch && s.case.request == request->0
            && s.case.caller_id == user.subject_id && s.case.caller_type == user.subject_type,
{
}

/// What the status machine refuses is not dispatched.
pub proof fn refused_dispatches_are_conflicts(
    stage: DispatchTransition,
    now: Timestamp,
    context: TransitionContext,
    reply: TransitionReply,
    r: Result<ApprovalAge, AppError>,
)
    requires
        call_ensures(DispatchTransition::context, (&stage, now), context),
        call_ensures(DispatchTransition::transitioned, (stage, now, reply), r),
    ensures
        context.request_id == stage.case.request.id,
        context.actor_id == stage.case.caller_id,
        context.metadata == EventMetadata::Dispatched,
        r is Ok <==> reply is Ok,
        r is Err ==> r->Err_0 is Conflict,
        r matches Ok(s) ==> s.case == stage.case && s.now == now && s.event == reply->Ok_0,
{
}

/// An approval lasts as many seconds as its workflow says, counted from the
/// approval; without such a limit it lasts.
pub proof fn approvals_last_as_long_as_the_workflow_says(
    stage: ApprovalAge,
    workflow: Option<Workflow>,
    at: Timestamp,
    needed: bool,
    r: Result<ExecutionBudget, AppError>,
)
    requires
        at.valid(),
        stage.case.request.resolved_at matches Some(t) ==> t.valid() && t.instant()
            <= at.instant(),
        call_ensures(ApprovalAge::needs_workflow, (&stage,), needed),
        call_ensures(ApprovalAge::aged, (stage, workflow, at), r),
    ensures
        needed <==> stage.case.request.resolved_at is Some
            && stage.case.request.workflow_snapshot_json is Some,
        r is Err <==> needed && workflow is Some && workflow->0.approval_ttl_secs is Some
            && at.instant() - stage.case.request.resolved_at->0.instant() >= (
        workflow->0.approval_ttl_secs->0 + 1) * 1_000_000_000,
        r is Err ==> r->Err_0 is Gone,
        r matches Ok(s) ==> s.case == stage.case && s.now == stage.now && s.event == stage.event,
{
}

/// A request that never ran is dispatched whatever the policy; resuming always
/// needs an execution left; a request that ran before needs one too, has to be
/// inside its window, and after a failure may run again only where that is on.
pub proof fn policies_limit_how_often_a_request_runs(
    stage: ExecutionBudget,
    policy: ExecutionPolicy,
    executions: u32,
    at: Timestamp,
    needed: bool,
    r: Result<DispatchMarking, AppError>,
)
    requires
        at.valid(),
        stage.case.request.resolved_at matches Some(t) ==> t.valid() && t.instant()
            <= at.instant(),
        call_ensures(ExecutionBudget::needs_policy, (&stage,), needed),
        call_ensures(ExecutionBudget::budgeted, (stage, &policy, executions, at), r),
    ensures
        ({
            let status = stage.case.request.status;
            let ran = status == RequestStatus::Executed || status == RequestStatus::Failed || status
                == RequestStatus::ExecutionLost;
            let in_window = stage.case.request.resolved_at matches Some(t) ==> at.instant()
                - t.instant() < (policy.execution_window_secs + 1) * 1_000_000_000;
            &&& needed <==> ran || stage.case.kind == DispatchKind::Resume
            &&& r is Ok <==> {
                &&& ran || stage.case.kind == DispatchKind::Resume ==> executions
                    < policy.max_executions
                &&& ran ==> in_window
                &&& status == RequestStatus::Failed ==> policy.retry_on_failure
            }
            &&& r is Err && ran && executions < policy.max_executions && !in_window
                ==> r->Err_0 is Gone
            &&& r is Err && in_window ==> r->Err_0 is Conflict
        }),
        r matches Ok(s) ==> s.case == stage.case && s.now == stage.now && s.event == stage.event,
{
}

/// A dispatched request is told to be; waiting readers get a slot unless a
/// resumed request's results are only stored.
pub proof fn dispatched_requests_are_answered(
    stage: DispatchMarking,
    updated: bool,
    m: Result<DispatchSlot, AppError>,
    policy: Result<Option<ResultPolicy>, AppError>,
    done: Dispatched,
)
    requires
        call_ensures(DispatchMarking::marked, (stage, updated), m),
        m is Ok ==> call_ensures(DispatchSlot::finish, (m->Ok_0, policy), done),
    ensures
        m is Ok <==> updated,
        m is Err ==> m->Err_0 is Conflict,
        m is Ok ==> {
            &&& done.output.id == stage.case.request.id
            &&& done.output.status == RequestStatus::Dispatched
            &&& done.event == stage.event
            &&& !done.create_slot <==> stage.case.kind == DispatchKind::Resume && policy is Ok
                && policy->Ok_0 is Some && policy->Ok_0->0.delivery_mode == DeliveryMode::StoreOnly
        },
{
}

/// A caller is told what stands in the way of a dispatch: first that nothing is
/// left to run, where the request is resumed, then that its window is over, and
/// last that failures are not run again.
pub proof fn callers_are_told_what_stops_a_dispatch(
    stage: ExecutionBudget,
    policy: ExecutionPolicy,
    executions: u32,
    at: Timestamp,
    e: AppError,
    age: ApprovalAge,
    workflow: Option<Workflow>,
    old: AppError,
)
    requires
        call_ensures(
            ExecutionBudget::budgeted,
            (stage, &policy, executions, at),
            Err::<DispatchMarking, AppError>(e),
        ),
        call_ensures(
            ApprovalAge::aged,
            (age, workflow, at),
            Err::<ExecutionBudget, AppError>(old),
        ),
    ensures
        stage.case.kind == DispatchKind::Resume && executions >= policy.max_executions ==> e@
            == ErrorView::Conflict("max executions reached"@),
        e@ == ErrorView::Conflict("max executions reached"@) ==> executions
            >= policy.max_executions,
        e is Gone ==> e@ == ErrorView::Gone("execution window expired"@),
        e is Conflict && executions < policy.max_executions ==> e@ == ErrorView::Conflict(
            "retry on failure disabled"@,
        ) && stage.case.request.status == RequestStatus::Failed,
        old@ == ErrorView::Gone("approval expired"@),
{
    reveal_strlit("max executions reached");
    reveal_strlit("retry on failure disabled");
    assert("max executions reached"@.len() != "retry on failure disabled"@.len());
    assert(e@ is Gone || e@ is Conflict);
}

} // verus!
