use dbward_app::domain::{
    AgentStatus, AuthUser, DatabaseCapability, Operation, Permission, Request, RequestStatus,
    SubjectType,
};
use dbward_app::error::{AppError, AuthzError};
use dbward_app::time::Timestamp;
use dbward_app::use_cases::agent_poll::{AgentPoll, AgentPollInput, PollRegistration};

const NOW: Timestamp = Timestamp { secs: 1_700_000_000, nanos: 0 };

fn make_request(status: RequestStatus) -> Request {
    Request {
        id: "req-001".to_string(),
        requester: "alice".to_string(),
        database: "app".to_string(),
        environment: "production".to_string(),
        operation: Operation::ExecuteSelect,
        detail: "SELECT 1".to_string(),
        status,
        emergency: false,
        reason: None,
        idempotency_key: None,
        idempotency_fingerprint: None,
        metadata_json: "{}".to_string(),
        share_with: vec![],
        no_result_store: false,
        workflow_snapshot_json: None,
        decision_trace_json: None,
        execution_plan_json: None,
        cancel_reason: None,
        cancelled_by: None,
        created_at: NOW,
        updated_at: NOW,
        resolved_at: None,
        expires_at: None,
    }
}

fn make_user() -> AuthUser {
    AuthUser {
        subject_id: "agent-1".to_string(),
        subject_type: SubjectType::Agent,
        roles: vec![],
        groups: vec![],
        token_id: Some("tok-1".to_string()),
    }
}

fn denied(permission: Permission) -> Result<(), AuthzError> {
    Err(AuthzError::Forbidden { permission, reason: "denied".to_string() })
}

fn make_input() -> AgentPollInput {
    AgentPollInput {
        capabilities: vec![DatabaseCapability {
            database: "app".to_string(),
            environment: "production".to_string(),
        }],
        operations: vec![],
        limit: None,
        in_flight: 0,
        max_concurrent: 4,
        draining: false,
        uptime_secs: 100,
        active_jobs: vec![],
    }
}

fn make_request_with(id: &str, op: Operation) -> Request {
    let mut request = make_request(RequestStatus::Dispatched);
    request.id = id.to_string();
    request.operation = op;
    request
}

fn poll(input: AgentPollInput, known: bool) -> PollRegistration {
    AgentPoll {}
        .execute(input, &make_user())
        .authorized(Ok(()))
        .unwrap_or_else(|_| panic!("refused"))
        .registered(known, NOW)
}

#[test]
fn agent_poll_authz_denied_returns_forbidden() {
    let r = AgentPoll {}
        .execute(make_input(), &make_user())
        .authorized(denied(Permission::AgentOperate));
    assert!(matches!(r, Err(AppError::Forbidden(_))));
}

#[test]
fn new_agent_emits_audit_event() {
    let registration = poll(make_input(), false);
    assert!(registration.is_new);
    assert!(registration.record(NOW).is_some());
    assert!(poll(make_input(), true).record(NOW).is_none());
    assert_eq!(registration.agent.id, "agent-1");
    assert_eq!(registration.agent.token_id, "tok-1");
}

#[test]
fn draining_sets_status_but_returns_jobs() {
    let mut input = make_input();
    input.draining = true;
    let registration = poll(input, true);
    assert!(registration.agent.status == AgentStatus::Draining);
    let jobs = vec![make_request_with("r1", Operation::ExecuteSelect)];
    assert_eq!(registration.query.found(&jobs).jobs.len(), 1);
}

#[test]
fn operations_filter_excludes_non_matching() {
    let mut input = make_input();
    input.operations = vec![Operation::ExecuteSelect];
    let jobs = vec![
        make_request_with("r1", Operation::ExecuteSelect),
        make_request_with("r2", Operation::ExecuteDml),
    ];
    let output = poll(input, true).query.found(&jobs);
    assert_eq!(output.jobs.len(), 1);
    assert_eq!(output.jobs[0].operation, Operation::ExecuteSelect);
}

#[test]
fn limit_caps_at_20() {
    let mut input = make_input();
    input.limit = Some(50);
    let jobs: Vec<Request> = (0..25)
        .map(|i| make_request_with(&format!("r{i}"), Operation::ExecuteSelect))
        .collect();
    assert_eq!(poll(input, true).query.found(&jobs).jobs.len(), 20);
    assert_eq!(poll(make_input(), true).query.found(&jobs).jobs.len(), 10);
}

#[test]
fn capability_matching_filters_jobs() {
    let registration = poll(make_input(), true);
    assert_eq!(registration.agent.databases.len(), 1);
    assert_eq!(registration.agent.databases[0].database, "app");
    let jobs = vec![make_request_with("r1", Operation::ExecuteSelect)];
    let output = registration.query.found(&jobs);
    assert_eq!(output.jobs.len(), 1);
    assert_eq!(output.jobs[0].id, "r1");
    assert_eq!(output.jobs[0].created_by, "alice");
}
