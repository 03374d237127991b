use dbward_app::domain::{
    AuthUser, DeliveryMode, Execution, ExecutionStatus, Operation, Permission, Request,
    RequestStatus, ResourceContext, ResultPolicy, Selector, SubjectType,
};
use dbward_app::error::{AppError, AuthzError};
use dbward_app::time::Timestamp;
use dbward_app::use_cases::get_result::{GetResult, GetResultInput, ResultFetch};

const NOW: Timestamp = Timestamp { secs: 1_700_000_000, nanos: 0 };

fn make_request(status: RequestStatus) -> Request {
    Request {
        id: "req-001".to_string(),
        requester: "alice".to_string(),
        database: "app".to_string(),
        environment: "production".to_string(),
        operation: Operation::ExecuteSelect,
        detail: "SELECT 1".to_string(),
        status,
        emergency: false,
        reason: None,
        idempotency_key: None,
        idempotency_fingerprint: None,
        metadata_json: "{}".to_string(),
        share_with: vec![],
        no_result_store: false,
        workflow_snapshot_json: None,
        decision_trace_json: None,
        execution_plan_json: None,
        cancel_reason: None,
        cancelled_by: None,
        created_at: NOW,
        updated_at: NOW,
        resolved_at: None,
        expires_at: None,
    }
}

fn make_user(id: &str) -> AuthUser {
    AuthUser {
        subject_id: id.to_string(),
        subject_type: SubjectType::User,
        roles: vec![],
        groups: vec![],
        token_id: None,
    }
}

fn denied(permission: Permission) -> Result<(), AuthzError> {
    Err(AuthzError::Forbidden { permission, reason: "denied".to_string() })
}

const DAY: i64 = 86_400;

fn ago(secs: i64) -> Timestamp {
    Timestamp { secs: NOW.secs - secs, nanos: 0 }
}

fn stored_request() -> Request {
    let mut request = make_request(RequestStatus::Executed);
    request.id = "req-1".to_string();
    request.database = "mydb".to_string();
    request.environment = "prod".to_string();
    request.resolved_at = Some(NOW);
    request
}

fn make_execution() -> Execution {
    Execution {
        id: "exec-1".to_string(),
        request_id: "req-1".to_string(),
        agent_id: "agent-1".to_string(),
        status: ExecutionStatus::Completed,
        token: "tok".to_string(),
        lease_expires_at: Timestamp { secs: NOW.secs + 3600, nanos: 0 },
        started_at: Some(NOW),
        finished_at: Some(NOW),
        error_message: None,
        created_at: NOW,
    }
}

fn make_policy(days: u32, access: Vec<Selector>) -> ResultPolicy {
    ResultPolicy {
        id: "rp-1".to_string(),
        database: "mydb".to_string(),
        environment: "prod".to_string(),
        retention_days: days,
        delivery_mode: DeliveryMode::Both,
        access,
        created_at: None,
        updated_at: None,
    }
}

fn copy(policy: &Option<ResultPolicy>) -> Result<Option<ResultPolicy>, AppError> {
    Ok(policy.as_ref().map(|p| {
        let mut q = make_policy(p.retention_days, p.access.iter().map(|s| s.copy()).collect());
        q.delivery_mode = p.delivery_mode;
        q
    }))
}

/// The requester may read, and whoever a selector names by the role dba.
fn may_read(user: &AuthUser, context: ResourceContext) -> Result<(), AuthzError> {
    match context {
        ResourceContext::Result { requester_id, access_selectors } => {
            if requester_id == user.subject_id || access_selectors.contains(&"role:dba".to_string()) {
                Ok(())
            } else {
                denied(Permission::ResultView)
            }
        },
        _ => panic!("not a result"),
    }
}

fn get(
    request: Request,
    execution: Execution,
    policy: Option<ResultPolicy>,
    wanted: Option<&str>,
    id: &str,
) -> Result<ResultFetch, AppError> {
    let user = make_user(id);
    let delivery = GetResult {}
        .execute(GetResultInput {
            request_id: "req-1".to_string(),
            execution_id: wanted.map(|w| w.to_string()),
        })
        .found(Some(request))?;
    let scoped = delivery.delivered(&copy(&policy))?.merge(&copy(&policy));
    let context = scoped.context();
    let executions = scoped.authorized(may_read(&user, context))?;
    executions.chosen(&vec![execution])?.retained(copy(&policy), NOW)
}

#[test]
fn uses_policy_retention_days() {
    let mut exec = make_execution();
    exec.finished_at = Some(ago(10 * DAY));
    let r = get(stored_request(), exec, Some(make_policy(7, vec![])), None, "alice");
    assert!(matches!(r, Err(AppError::Gone(_))));
}

#[test]
fn policy_access_selectors_merged() {
    let mut exec = make_execution();
    exec.finished_at = Some(ago(3600));
    let policy = make_policy(30, vec![Selector::Role("dba".to_string())]);
    assert!(get(stored_request(), exec, Some(policy), None, "bob").is_ok());
    let r = get(stored_request(), make_execution(), Some(make_policy(30, vec![])), None, "bob");
    assert!(matches!(r, Err(AppError::Forbidden(_))));
}

#[test]
fn fallback_30_days_when_no_policy() {
    let mut exec = make_execution();
    exec.finished_at = Some(ago(25 * DAY));
    assert!(get(stored_request(), exec, None, None, "alice").is_ok());
    let mut exec = make_execution();
    exec.finished_at = Some(ago(31 * DAY));
    let r = get(stored_request(), exec, None, None, "alice");
    assert!(matches!(r, Err(AppError::Gone(_))));
}

#[test]
fn no_store_failed_request_returns_result() {
    let mut req = stored_request();
    req.no_result_store = true;
    req.status = RequestStatus::Failed;
    let mut exec = make_execution();
    exec.status = ExecutionStatus::Failed;
    exec.error_message = Some("timeout".to_string());
    match get(req, exec, None, None, "alice") {
        Ok(fetch) => assert!(!fetch.output.success),
        Err(_) => panic!("refused"),
    }
}

#[test]
fn no_store_success_returns_gone() {
    let mut req = stored_request();
    req.no_result_store = true;
    req.status = RequestStatus::Executed;
    let r = get(req, make_execution(), None, None, "alice");
    assert!(matches!(r, Err(AppError::Gone(_))));
}

#[test]
fn specific_execution_id_returns_that_execution() {
    match get(stored_request(), make_execution(), None, Some("exec-1"), "alice") {
        Ok(fetch) => {
            assert_eq!(fetch.output.execution_id, "exec-1");
            assert!(fetch.output.success);
        },
        Err(_) => panic!("refused"),
    }
}

#[test]
fn invalid_execution_id_returns_not_found() {
    let r = get(stored_request(), make_execution(), None, Some("nonexistent"), "alice");
    assert!(matches!(r, Err(AppError::NotFound(_))));
}

#[test]
fn merged_readers_are_named_once() {
    let mut request = stored_request();
    request.share_with = vec!["role:dba".to_string(), "user:bob".to_string()];
    let policy = Some(make_policy(
        30,
        vec![Selector::Role("dba".to_string()), Selector::Group("ops".to_string())],
    ));
    let scoped = GetResult {}
        .execute(GetResultInput { request_id: "req-1".to_string(), execution_id: None })
        .found(Some(request))
        .and_then(|d| d.delivered(&copy(&policy)))
        .unwrap_or_else(|_| panic!("refused"))
        .merge(&copy(&policy));
    assert_eq!(
        scoped.access_selectors,
        vec!["role:dba".to_string(), "user:bob".to_string(), "group:ops".to_string()]
    );
}

#[test]
fn unreadable_storage_is_an_internal_error() {
    let fetch = get(stored_request(), make_execution(), None, None, "alice")
        .unwrap_or_else(|_| panic!("refused"));
    assert_eq!(fetch.key, "results/req-1/exec-1");
    let e = fetch.failed(AppError::Internal("disk".to_string()), "");
    assert!(matches!(e, AppError::Internal(m) if m.starts_with("failed to read result from storage")));
    let e = fetch.failed(AppError::NotFound("gone".to_string()), "");
    assert!(matches!(e, AppError::NotFound(_)));
}
