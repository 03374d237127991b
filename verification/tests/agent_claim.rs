use dbward_app::domain::{
    AuthUser, DatabaseCapability, ExecutionPolicy, ExecutionStatus, Operation, Permission, Request,
    RequestStatus, ResourceContext, SubjectType, TransitionContext, TransitionEvent,
    TransitionReply,
};
use dbward_app::error::{AppError, AuthError, AuthzError};
use dbward_app::time::Timestamp;
use dbward_app::use_cases::agent_claim::{
    AgentClaim, AgentClaimInput, AgentClaimOutput, ClaimSigning,
};

const NOW: Timestamp = Timestamp { secs: 1_700_000_000, nanos: 0 };

fn make_request(status: RequestStatus) -> Request {
    Request {
        id: "req-001".to_string(),
        requester: "alice".to_string(),
        database: "app".to_string(),
        environment: "production".to_string(),
        operation: Operation::ExecuteSelect,
        detail: "SELECT 1".to_string(),
        status,
        emergency: false,
        reason: None,
        idempotency_key: None,
        idempotency_fingerprint: None,
        metadata_json: "{}".to_string(),
        share_with: vec![],
        no_result_store: false,
        workflow_snapshot_json: None,
        decision_trace_json: None,
        execution_plan_json: None,
        cancel_reason: None,
        cancelled_by: None,
        created_at: NOW,
        updated_at: NOW,
        resolved_at: None,
        expires_at: None,
    }
}

fn make_user() -> AuthUser {
    AuthUser {
        subject_id: "agent-1".to_string(),
        subject_type: SubjectType::Agent,
        roles: vec![],
        groups: vec![],
        token_id: None,
    }
}

/// The status machine, as far as these tests go.
fn machine(from: RequestStatus, allowed: &[RequestStatus], to: RequestStatus, c: TransitionContext) -> TransitionReply {
    if !allowed.contains(&from) {
        return Err("invalid transition".to_string());
    }
    Ok(TransitionEvent {
        request_id: c.request_id,
        previous_status: from,
        new_status: to,
        actor_id: c.actor_id,
        actor_type: c.actor_type,
        database: c.database,
        environment: c.environment,
        operation: c.operation,
        timestamp: c.timestamp,
        metadata: c.metadata,
        requester_id: c.requester_id,
        auth_token_id: None,
    })
}

fn denied(permission: Permission) -> Result<(), AuthzError> {
    Err(AuthzError::Forbidden { permission, reason: "denied".to_string() })
}

fn make_policy() -> ExecutionPolicy {
    ExecutionPolicy {
        id: "ep-1".to_string(),
        database: "*".to_string(),
        environment: "*".to_string(),
        max_executions: 10,
        execution_window_secs: 86_400,
        retry_on_failure: true,
        statement_timeout_secs: 30,
        max_statement_timeout_secs: 300,
        max_rows: Some(1000),
        migration_lease_duration_secs: None,
        migration_statement_timeout_secs: None,
        created_at: None,
        updated_at: None,
    }
}

fn capability(database: &str, environment: &str) -> DatabaseCapability {
    DatabaseCapability { database: database.to_string(), environment: environment.to_string() }
}

fn default_caps() -> Vec<DatabaseCapability> {
    vec![capability("app", "production")]
}

fn make_input(databases: Vec<DatabaseCapability>) -> AgentClaimInput {
    AgentClaimInput {
        request_id: "req-001".to_string(),
        agent_id: "agent-1".to_string(),
        agent_databases: databases,
    }
}

fn signing(
    caps: Vec<DatabaseCapability>,
    request: Option<Request>,
    allowed: bool,
    running: bool,
) -> Result<ClaimSigning, AppError> {
    let from = request.as_ref().map(|r| r.status).unwrap_or(RequestStatus::Pending);
    let reply = if allowed { Ok(()) } else { denied(Permission::AgentClaim) };
    let lookup = AgentClaim {}.execute(make_input(caps), &make_user()).authorized(reply)?;
    let transition = lookup.found(request)?;
    let id = "test-id-001".to_string();
    let context = transition.context(NOW, &id);
    let answer = machine(from, &[RequestStatus::Dispatched], RequestStatus::Running, context);
    let exclusion = transition.transitioned(NOW, id, answer)?.registered(true)?;
    let running = exclusion.is_migration() && running;
    let scoped = exclusion.exclusive(running)?;
    assert!(matches!(scoped.context(), ResourceContext::AgentExecution { agent_id } if agent_id == "agent-1"));
    Ok(scoped.authorized(Ok(()))?.grouped(Some(vec!["ops".to_string()])))
}

fn claim(
    caps: Vec<DatabaseCapability>,
    request: Option<Request>,
    allowed: bool,
    running: bool,
    marked: bool,
) -> Result<AgentClaimOutput, AppError> {
    let signing = signing(caps, request, allowed, running)?;
    let commit = signing.signed("fake-token".to_string(), &make_policy(), 60);
    assert_eq!(commit.execution.status, ExecutionStatus::Claimed);
    commit.marked(marked).map(|p| p.0)
}

#[test]
fn agent_claim_authz_denied_returns_forbidden() {
    let r = claim(
        default_caps(),
        Some(make_request(RequestStatus::Dispatched)),
        false,
        false,
        true,
    );
    assert!(matches!(r, Err(AppError::Forbidden(_))));
}

#[test]
fn request_not_found_returns_not_found() {
    let r = claim(default_caps(), None, true, false, true);
    assert!(matches!(r, Err(AppError::NotFound(_))));
}

#[test]
fn non_dispatched_status_returns_conflict() {
    let r = claim(default_caps(), Some(make_request(RequestStatus::Pending)), true, false, true);
    assert!(matches!(r, Err(AppError::Conflict(_))));
}

#[test]
fn capability_mismatch_returns_forbidden() {
    let caps = vec![capability("other", "production")];
    let r = claim(caps, Some(make_request(RequestStatus::Dispatched)), true, false, true);
    assert!(matches!(r, Err(AppError::Forbidden(_))));
}

#[test]
fn wildcard_capability_allows_claim() {
    let caps = vec![capability("*", "*")];
    let r = claim(caps, Some(make_request(RequestStatus::Dispatched)), true, false, true);
    assert!(r.is_ok());
}

#[test]
fn migration_concurrent_returns_conflict() {
    let mut req = make_request(RequestStatus::Dispatched);
    req.operation = Operation::MigrateUp;
    let r = claim(default_caps(), Some(req), true, true, true);
    assert!(matches!(r, Err(AppError::Conflict(_))));
}

#[test]
fn claim_and_mark_running_fails_returns_conflict() {
    let r = claim(
        default_caps(),
        Some(make_request(RequestStatus::Dispatched)),
        true,
        false,
        false,
    );
    assert!(matches!(r, Err(AppError::Conflict(_))));
}

#[test]
fn valid_claim_returns_output() {
    let output = claim(
        default_caps(),
        Some(make_request(RequestStatus::Dispatched)),
        true,
        false,
        true,
    )
    .unwrap_or_else(|_| panic!("refused"));
    assert_eq!(output.request_id, "req-001");
    assert_eq!(output.operation, "execute_select");
    assert_eq!(output.database, "app");
    assert_eq!(output.environment, "production");
    assert_eq!(output.detail, "SELECT 1");
    assert_eq!(output.execution_token, "fake-token");
    assert!(!output.execution_id.is_empty());
    assert_eq!(output.statement_timeout_secs, 30);
    assert_eq!(output.max_rows, Some(1000));
    assert_eq!(output.lease_expires_at, Timestamp { secs: NOW.secs + 60, nanos: 0 });
}

#[test]
fn token_names_the_statement_by_its_digest() {
    let s = signing(default_caps(), Some(make_request(RequestStatus::Dispatched)), true, false)
        .unwrap_or_else(|_| panic!("refused"));
    let claims = s.claims(&Ok(vec!["dev".to_string(), "admin".to_string()]));
    assert_eq!(
        claims.detail_hash,
        "e004ebd5b5532a4b85984a62f8ad48a81aa3460c1ca07701f386135d72cdecf5"
    );
    assert_eq!(claims.requester, "alice");
    assert_eq!(claims.operation, "execute_select");
    assert_eq!(claims.requester_role, "dev");
    let unknown = s.claims(&Err(AuthError::NoRolesResolved));
    assert_ne!(unknown.requester_role, "dev");
}
