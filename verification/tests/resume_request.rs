use dbward_app::domain::{
    AuthUser, DeliveryMode, ExecutionPolicy, Operation, Permission, Request, RequestStatus,
    ResultPolicy, SubjectType, TransitionContext, TransitionEvent, TransitionReply, Workflow,
};
use dbward_app::error::AppError;
use dbward_app::time::Timestamp;
use dbward_app::use_cases::dispatch_request::{Dispatched, DispatchStart};
use dbward_app::use_cases::resume_request::{
    ResumeRequest, ResumeRequestInput, ResumeRequestOutput,
};

const NOW: Timestamp = Timestamp { secs: 1_700_000_000, nanos: 0 };

fn make_request(status: RequestStatus) -> Request {
    Request {
        id: "req-001".to_string(),
        requester: "alice".to_string(),
        database: "app".to_string(),
        environment: "production".to_string(),
        operation: Operation::ExecuteDml,
        detail: "UPDATE x SET y=1".to_string(),
        status,
        emergency: false,
        reason: None,
        idempotency_key: None,
        idempotency_fingerprint: None,
        metadata_json: "{}".to_string(),
        share_with: vec![],
        no_result_store: false,
        workflow_snapshot_json: None,
        decision_trace_json: None,
        execution_plan_json: None,
        cancel_reason: None,
        cancelled_by: None,
        created_at: NOW,
        updated_at: NOW,
        resolved_at: None,
        expires_at: None,
    }
}

fn make_user() -> AuthUser {
    AuthUser {
        subject_id: "alice".to_string(),
        subject_type: SubjectType::User,
        roles: vec![],
        groups: vec![],
        token_id: None,
    }
}

/// The status machine, as far as these tests go.
fn machine(from: RequestStatus, allowed: &[RequestStatus], to: RequestStatus, c: TransitionContext) -> TransitionReply {
    if !allowed.contains(&from) {
        return Err("invalid transition".to_string());
    }
    Ok(TransitionEvent {
        request_id: c.request_id,
        previous_status: from,
        new_status: to,
        actor_id: c.actor_id,
        actor_type: c.actor_type,
        database: c.database,
        environment: c.environment,
        operation: c.operation,
        timestamp: c.timestamp,
        metadata: c.metadata,
        requester_id: c.requester_id,
        auth_token_id: None,
    })
}

fn make_policy() -> ExecutionPolicy {
    ExecutionPolicy {
        id: "ep-1".to_string(),
        database: "*".to_string(),
        environment: "*".to_string(),
        max_executions: 10,
        execution_window_secs: 86_400,
        retry_on_failure: true,
        statement_timeout_secs: 30,
        max_statement_timeout_secs: 300,
        max_rows: Some(1000),
        migration_lease_duration_secs: None,
        migration_statement_timeout_secs: None,
        created_at: None,
        updated_at: None,
    }
}

fn result_policy(mode: DeliveryMode) -> ResultPolicy {
    ResultPolicy {
        id: "rp-1".to_string(),
        database: "app".to_string(),
        environment: "production".to_string(),
        retention_days: 30,
        delivery_mode: mode,
        access: vec![],
        created_at: None,
        updated_at: None,
    }
}

fn run(
    request: Option<Request>,
    policy: ExecutionPolicy,
    executions: u32,
    workflow: Option<Workflow>,
) -> Result<Dispatched, AppError> {
    let from = request.as_ref().map(|r| r.status).unwrap_or(RequestStatus::Pending);
    let authorizing = exec_input().found(request)?;
    assert_eq!(authorizing.permission(), Permission::RequestResume);
    let transition = authorizing.authorized(Ok(()))?;
    let context = transition.context(NOW);
    let from_states = [
        RequestStatus::Approved,
        RequestStatus::AutoApproved,
        RequestStatus::BreakGlass,
        RequestStatus::Executed,
        RequestStatus::Failed,
    ];
    let reply = machine(from, &from_states, RequestStatus::Dispatched, context);
    let budget = transition.transitioned(NOW, reply)?.aged(workflow, NOW)?;
    let marking = if budget.needs_policy() {
        budget.budgeted(&policy, executions, NOW)?
    } else {
        budget.unbudgeted()
    };
    Ok(marking.marked(true)?.finish(Ok(Some(result_policy(DeliveryMode::Both)))))
}

fn exec_input() -> DispatchStart {
    ResumeRequest {}
        .execute(ResumeRequestInput { request_id: "req-001".to_string() }, &make_user())
}

fn ago(secs: i64) -> Option<Timestamp> {
    Some(Timestamp { secs: NOW.secs - secs, nanos: 0 })
}

fn status_of(status: RequestStatus) -> Result<RequestStatus, AppError> {
    run(Some(make_request(status)), make_policy(), 0, None)
        .map(|d| ResumeRequestOutput::of(&d).status)
}

#[test]
fn resume_request_dispatch_approved_succeeds() {
    assert!(matches!(status_of(RequestStatus::Approved), Ok(RequestStatus::Dispatched)));
}

#[test]
fn resume_request_dispatch_pending_fails() {
    assert!(matches!(status_of(RequestStatus::Pending), Err(AppError::Conflict(_))));
}

#[test]
fn resume_request_dispatch_break_glass_succeeds() {
    assert!(matches!(status_of(RequestStatus::BreakGlass), Ok(RequestStatus::Dispatched)));
}

fn limited_workflow() -> Workflow {
    Workflow {
        id: "wf-1".to_string(),
        database: "*".to_string(),
        environment: "*".to_string(),
        operations: vec![],
        auto_approve: None,
        steps: vec![],
        require_reason: false,
        allow_self_approve: false,
        allow_same_approver_across_steps: false,
        explain: true,
        pending_ttl_secs: None,
        statement_timeout_secs: None,
        approval_ttl_secs: Some(60),
        created_at: None,
        updated_at: None,
    }
}

#[test]
fn approval_ttl_exactly_expired_returns_gone() {
    let mut req = make_request(RequestStatus::Approved);
    req.resolved_at = ago(61);
    req.workflow_snapshot_json = Some("{}".to_string());
    let r = run(Some(req), make_policy(), 0, Some(limited_workflow()));
    assert!(matches!(r, Err(AppError::Gone(_))));
}

#[test]
fn approval_within_its_time_is_resumed() {
    let mut req = make_request(RequestStatus::Approved);
    req.resolved_at = ago(60);
    req.workflow_snapshot_json = Some("{}".to_string());
    let r = run(Some(req), make_policy(), 0, Some(limited_workflow()));
    assert!(r.is_ok());
}

#[test]
fn max_executions_boundary_returns_conflict() {
    let mut policy = make_policy();
    policy.max_executions = 3;
    let r = run(Some(make_request(RequestStatus::Approved)), policy, 3, None);
    assert!(matches!(r, Err(AppError::Conflict(_))));
    let mut policy = make_policy();
    policy.max_executions = 3;
    let r = run(Some(make_request(RequestStatus::Approved)), policy, 2, None);
    assert!(r.is_ok());
}

#[test]
fn execution_window_expired_returns_gone() {
    let mut req = make_request(RequestStatus::Executed);
    req.resolved_at = ago(3601);
    let mut policy = make_policy();
    policy.execution_window_secs = 3600;
    let r = run(Some(req), policy, 0, None);
    assert!(matches!(r, Err(AppError::Gone(_))));
}

#[test]
fn retry_on_failure_disabled_returns_conflict() {
    let mut req = make_request(RequestStatus::Failed);
    req.resolved_at = Some(NOW);
    let mut policy = make_policy();
    policy.retry_on_failure = false;
    policy.execution_window_secs = 86_400;
    let r = run(Some(req), policy, 0, None);
    assert!(matches!(r, Err(AppError::Conflict(_))));
}

#[test]
fn waiting_readers_get_a_slot() {
    let d = run(Some(make_request(RequestStatus::Approved)), make_policy(), 0, None)
        .unwrap_or_else(|_| panic!("refused"));
    assert!(d.create_slot);
}
