use dbward_app::domain::{
    AuthUser, Operation, Permission, Request, RequestStatus, ResourceContext, SubjectType,
};
use dbward_app::error::{AppError, AuthzError};
use dbward_app::time::Timestamp;
use dbward_app::use_cases::get_request::{GetRequest, GetRequestOutput, ViewStep};

const NOW: Timestamp = Timestamp { secs: 1_700_000_000, nanos: 0 };

fn make_request(status: RequestStatus) -> Request {
    Request {
        id: "req-001".to_string(),
        requester: "alice".to_string(),
        database: "app".to_string(),
        environment: "production".to_string(),
        operation: Operation::ExecuteSelect,
        detail: "SELECT 1".to_string(),
        status,
        emergency: false,
        reason: None,
        idempotency_key: None,
        idempotency_fingerprint: None,
        metadata_json: "{}".to_string(),
        share_with: vec![],
        no_result_store: false,
        workflow_snapshot_json: None,
        decision_trace_json: None,
        execution_plan_json: None,
        cancel_reason: None,
        cancelled_by: None,
        created_at: NOW,
        updated_at: NOW,
        resolved_at: None,
        expires_at: None,
    }
}

fn make_user(id: &str) -> AuthUser {
    AuthUser {
        subject_id: id.to_string(),
        subject_type: SubjectType::User,
        roles: vec![],
        groups: vec![],
        token_id: None,
    }
}

fn denied(permission: Permission) -> Result<(), AuthzError> {
    Err(AuthzError::Forbidden { permission, reason: "denied".to_string() })
}

fn test_request(requester: &str, status: RequestStatus) -> Request {
    let mut request = make_request(status);
    request.id = "req-1".to_string();
    request.requester = requester.to_string();
    request.database = "db1".to_string();
    request.environment = "prod".to_string();
    request
}

fn view(
    request: Option<Request>,
    id: &str,
    allowed: bool,
    is_approver: bool,
) -> Result<GetRequestOutput<u32>, AppError> {
    let scoped = GetRequest {}.execute(make_user(id)).found(request)?;
    assert!(matches!(scoped.context(), ResourceContext::Request { requester_id } if requester_id == "u1"));
    let reply = if allowed { Ok(()) } else { denied(Permission::RequestView) };
    let progress = match scoped.authorized(reply)? {
        ViewStep::Granted(s) => s,
        ViewStep::AskApprover(s) => s.approver(is_approver)?,
    };
    Ok(progress.viewed(Some(1)))
}

#[test]
fn not_found() {
    assert!(matches!(view(None, "u1", true, false), Err(AppError::NotFound(_))));
}

#[test]
fn owner_sees_full_detail() {
    let out = view(Some(test_request("u1", RequestStatus::Pending)), "u1", true, false)
        .unwrap_or_else(|_| panic!("refused"));
    assert_eq!(out.detail, "SELECT 1");
    assert!(!out.is_approver_view);
    assert_eq!(out.approval_progress, Some(1));
}

#[test]
fn get_request_forbidden_when_no_permission() {
    let r = view(Some(test_request("u1", RequestStatus::Pending)), "u2", false, false);
    assert!(matches!(r, Err(AppError::Forbidden(_))));
}

#[test]
fn current_step_approver_can_view_pending_request() {
    let out = view(Some(test_request("u1", RequestStatus::Pending)), "u2", false, true)
        .unwrap_or_else(|_| panic!("refused"));
    assert!(out.is_approver_view);
    assert_eq!(out.detail, "[redacted - approve to view]");
}

#[test]
fn non_approver_forbidden() {
    let r = view(Some(test_request("u1", RequestStatus::Pending)), "u2", false, false);
    assert!(matches!(r, Err(AppError::Forbidden(_))));
}

#[test]
fn approver_cannot_view_non_pending_request() {
    let r = view(Some(test_request("u1", RequestStatus::Approved)), "u2", false, true);
    assert!(matches!(r, Err(AppError::Forbidden(_))));
}
