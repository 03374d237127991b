use dbward_app::domain::{
    AuthUser, Operation, Permission, Request, RequestStatus, ResourceContext, SubjectType,
    TransitionContext, TransitionEvent, TransitionReply,
};
use dbward_app::error::{AppError, AuthzError};
use dbward_app::services::audit_event_builder::RedactionMode;
use dbward_app::time::Timestamp;
use dbward_app::use_cases::cancel_request::{
    status_marked, CancelCommit, CancelRequest, CancelRequestInput,
};

const NOW: Timestamp = Timestamp { secs: 1_700_000_000, nanos: 0 };

fn make_request(status: RequestStatus) -> Request {
    Request {
        id: "req-001".to_string(),
        requester: "alice".to_string(),
        database: "app".to_string(),
        environment: "production".to_string(),
        operation: Operation::ExecuteDml,
        detail: "UPDATE x SET y=1".to_string(),
        status,
        emergency: false,
        reason: None,
        idempotency_key: None,
        idempotency_fingerprint: None,
        metadata_json: "{}".to_string(),
        share_with: vec![],
        no_result_store: false,
        workflow_snapshot_json: None,
        decision_trace_json: None,
        execution_plan_json: None,
        cancel_reason: None,
        cancelled_by: None,
        created_at: NOW,
        updated_at: NOW,
        resolved_at: None,
        expires_at: None,
    }
}

fn make_user(id: &str) -> AuthUser {
    AuthUser {
        subject_id: id.to_string(),
        subject_type: SubjectType::User,
        roles: vec![],
        groups: vec![],
        token_id: None,
    }
}

/// The status machine, as far as these tests go.
fn machine(from: RequestStatus, allowed: &[RequestStatus], to: RequestStatus, c: TransitionContext) -> TransitionReply {
    if !allowed.contains(&from) {
        return Err("invalid transition".to_string());
    }
    Ok(TransitionEvent {
        request_id: c.request_id,
        previous_status: from,
        new_status: to,
        actor_id: c.actor_id,
        actor_type: c.actor_type,
        database: c.database,
        environment: c.environment,
        operation: c.operation,
        timestamp: c.timestamp,
        metadata: c.metadata,
        requester_id: c.requester_id,
        auth_token_id: None,
    })
}

fn denied(permission: Permission) -> Result<(), AuthzError> {
    Err(AuthzError::Forbidden { permission, reason: "denied".to_string() })
}

fn cancel(
    request: Option<Request>,
    id: &str,
    reason: Option<&str>,
    allowed: bool,
) -> Result<CancelCommit, AppError> {
    let uc = CancelRequest { redaction_mode: RedactionMode::Off };
    let from = request.as_ref().map(|r| r.status).unwrap_or(RequestStatus::Pending);
    let input = CancelRequestInput {
        request_id: "req-001".to_string(),
        reason: reason.map(|r| r.to_string()),
    };
    let authorizing = uc.execute(input, &make_user(id))?.found(request)?;
    assert!(matches!(authorizing.context(), ResourceContext::RequestMutate { requester_id } if requester_id == "alice"));
    let reply = if allowed { Ok(()) } else { denied(Permission::RequestCancel) };
    let transition = authorizing.authorized(reply)?;
    let context = transition.context(NOW);
    let open = [
        RequestStatus::Pending,
        RequestStatus::Approved,
        RequestStatus::Dispatched,
        RequestStatus::Running,
    ];
    let commit =
        transition.transitioned(NOW, machine(from, &open, RequestStatus::Cancelled, context))?;
    status_marked(true)?;
    Ok(commit)
}

#[test]
fn cancel_pending_succeeds() {
    let request = make_request(RequestStatus::Pending);
    match cancel(Some(request), "alice", Some("changed mind"), true) {
        Ok(commit) => {
            assert_eq!(commit.cancelled_by, "alice");
            assert_eq!(commit.reason, Some("changed mind".to_string()));
            let (out, notice) = commit.committed();
            assert_eq!(out.status, RequestStatus::Cancelled);
            assert_eq!(out.id, "req-001");
            assert_eq!(notice.request_id, Some("req-001".to_string()));
        },
        Err(_) => panic!("refused"),
    }
}

#[test]
fn cancel_rejected_fails() {
    let r = cancel(Some(make_request(RequestStatus::Rejected)), "alice", None, true);
    assert!(matches!(r, Err(AppError::Conflict(_))));
}

#[test]
fn cancel_denied_by_authorizer() {
    let r = cancel(Some(make_request(RequestStatus::Pending)), "bob", None, false);
    assert!(matches!(r, Err(AppError::Forbidden(_))));
}

#[test]
fn cancelling_needs_a_request_and_a_short_reason() {
    let r = cancel(None, "alice", None, true);
    assert!(matches!(r, Err(AppError::NotFound(_))));
    let long = "r".repeat(1025);
    let r = cancel(Some(make_request(RequestStatus::Pending)), "alice", Some(&long), true);
    assert!(matches!(r, Err(AppError::Validation(_))));
    let longest = "r".repeat(1024);
    let r = cancel(Some(make_request(RequestStatus::Pending)), "alice", Some(&longest), true);
    assert!(r.is_ok());
}

#[test]
fn cancelling_that_changes_nothing_is_a_conflict() {
    assert!(status_marked(true).is_ok());
    assert!(matches!(status_marked(false), Err(AppError::Conflict(_))));
}
