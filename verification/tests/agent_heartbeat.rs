use dbward_app::domain::{
    Execution, ExecutionStatus, Operation, Permission, Request, RequestStatus, ResourceContext,
};
use dbward_app::error::{AppError, AuthzError};
use dbward_app::time::Timestamp;
use dbward_app::use_cases::agent_heartbeat::{AgentHeartbeat, AgentHeartbeatInput, LeaseExtension};

const NOW: Timestamp = Timestamp { secs: 1_700_000_000, nanos: 0 };

fn make_request(status: RequestStatus) -> Request {
    Request {
        id: "req-001".to_string(),
        requester: "alice".to_string(),
        database: "app".to_string(),
        environment: "production".to_string(),
        operation: Operation::ExecuteSelect,
        detail: "SELECT 1".to_string(),
        status,
        emergency: false,
        reason: None,
        idempotency_key: None,
        idempotency_fingerprint: None,
        metadata_json: "{}".to_string(),
        share_with: vec![],
        no_result_store: false,
        workflow_snapshot_json: None,
        decision_trace_json: None,
        execution_plan_json: None,
        cancel_reason: None,
        cancelled_by: None,
        created_at: NOW,
        updated_at: NOW,
        resolved_at: None,
        expires_at: None,
    }
}

fn denied(permission: Permission) -> Result<(), AuthzError> {
    Err(AuthzError::Forbidden { permission, reason: "denied".to_string() })
}

fn make_execution(status: ExecutionStatus) -> Execution {
    Execution {
        id: "exec-001".to_string(),
        request_id: "req-001".to_string(),
        agent_id: "agent-1".to_string(),
        status,
        token: "tok".to_string(),
        lease_expires_at: Timestamp { secs: NOW.secs + 60, nanos: 0 },
        started_at: Some(NOW),
        finished_at: None,
        error_message: None,
        created_at: NOW,
    }
}

fn beat(
    id: &str,
    execution: Option<Execution>,
    request: Option<Request>,
    global: bool,
    scoped: bool,
) -> Result<LeaseExtension, AppError> {
    let start = AgentHeartbeat {}.execute(AgentHeartbeatInput { execution_id: id.to_string() });
    let reply = if global { Ok(()) } else { denied(Permission::AgentHeartbeat) };
    let check = start.authorized(reply)?.found(execution)?;
    assert!(matches!(check.context(), ResourceContext::AgentExecution { agent_id } if agent_id == "agent-1"));
    let reply = if scoped { Ok(()) } else { denied(Permission::AgentHeartbeat) };
    Ok(check.authorized(reply)?.extended(&request, NOW, 90))
}

#[test]
fn agent_heartbeat_authz_denied_returns_forbidden() {
    let r = beat("exec-001", Some(make_execution(ExecutionStatus::Claimed)), None, false, false);
    assert!(matches!(r, Err(AppError::Forbidden(_))));
}

#[test]
fn execution_not_found_returns_not_found() {
    let r = beat("exec-999", None, None, true, true);
    assert!(matches!(r, Err(AppError::NotFound(_))));
}

#[test]
fn wrong_agent_id_returns_forbidden() {
    let r = beat("exec-001", Some(make_execution(ExecutionStatus::Claimed)), None, true, false);
    assert!(matches!(r, Err(AppError::Forbidden(_))));
}

#[test]
fn non_claimed_status_returns_conflict() {
    let r = beat("exec-001", Some(make_execution(ExecutionStatus::Completed)), None, true, true);
    assert!(matches!(r, Err(AppError::Conflict(_))));
}

fn extended(request: Option<Request>) -> LeaseExtension {
    beat("exec-001", Some(make_execution(ExecutionStatus::Claimed)), request, true, true)
        .unwrap_or_else(|_| panic!("refused"))
}

#[test]
fn extends_lease_and_not_cancelled() {
    let lease = extended(Some(make_request(RequestStatus::Running)));
    assert!(!lease.output.cancelled);
    assert_eq!(lease.execution_id, "exec-001");
    assert_eq!(lease.expires_at, Timestamp { secs: NOW.secs + 90, nanos: 0 });
}

#[test]
fn detects_cancelled_request() {
    assert!(extended(Some(make_request(RequestStatus::Cancelled))).output.cancelled);
}

#[test]
fn request_not_found_defaults_to_not_cancelled() {
    assert!(!extended(None).output.cancelled);
}
