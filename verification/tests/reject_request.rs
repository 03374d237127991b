use dbward_app::domain::{
    ApprovalAction, ApproverGroup, AuthUser, Operation, Request, RequestStatus, Selector,
    SubjectType, TransitionContext, TransitionEvent, TransitionReply, Workflow, WorkflowStep,
    WorkflowStepMode,
};
use dbward_app::error::AppError;
use dbward_app::time::Timestamp;
use dbward_app::use_cases::reject_request::{
    RejectCommit, RejectRequest, RejectRequestInput, RejectStep,
};

const NOW: Timestamp = Timestamp { secs: 1_700_000_000, nanos: 0 };

fn make_request(status: RequestStatus) -> Request {
    Request {
        id: "req-001".to_string(),
        requester: "alice".to_string(),
        database: "app".to_string(),
        environment: "production".to_string(),
        operation: Operation::ExecuteDml,
        detail: "DELETE FROM users".to_string(),
        status,
        emergency: false,
        reason: None,
        idempotency_key: None,
        idempotency_fingerprint: None,
        metadata_json: "{}".to_string(),
        share_with: vec![],
        no_result_store: false,
        workflow_snapshot_json: None,
        decision_trace_json: None,
        execution_plan_json: None,
        cancel_reason: None,
        cancelled_by: None,
        created_at: NOW,
        updated_at: NOW,
        resolved_at: None,
        expires_at: None,
    }
}

fn make_user(id: &str) -> AuthUser {
    AuthUser {
        subject_id: id.to_string(),
        subject_type: SubjectType::User,
        roles: vec![],
        groups: vec![],
        token_id: None,
    }
}

/// The status machine, as far as these tests go.
fn machine(from: RequestStatus, allowed: &[RequestStatus], to: RequestStatus, c: TransitionContext) -> TransitionReply {
    if !allowed.contains(&from) {
        return Err("invalid transition".to_string());
    }
    Ok(TransitionEvent {
        request_id: c.request_id,
        previous_status: from,
        new_status: to,
        actor_id: c.actor_id,
        actor_type: c.actor_type,
        database: c.database,
        environment: c.environment,
        operation: c.operation,
        timestamp: c.timestamp,
        metadata: c.metadata,
        requester_id: c.requester_id,
        auth_token_id: None,
    })
}

fn make_workflow() -> Workflow {
    Workflow {
        id: "wf-1".to_string(),
        database: "app".to_string(),
        environment: "production".to_string(),
        operations: vec![],
        auto_approve: None,
        steps: vec![WorkflowStep {
            approvers: vec![ApproverGroup { selector: Selector::Role("dba".to_string()), min: 1 }],
            mode: WorkflowStepMode::Any,
        }],
        require_reason: false,
        allow_self_approve: false,
        allow_same_approver_across_steps: true,
        explain: true,
        pending_ttl_secs: None,
        statement_timeout_secs: None,
        approval_ttl_secs: None,
        created_at: None,
        updated_at: None,
    }
}

fn reject(
    mut request: Request,
    id: &str,
    matched: &Vec<bool>,
    comment: Option<String>,
) -> Result<RejectCommit, AppError> {
    request.workflow_snapshot_json = Some("{}".to_string());
    let from = request.status;
    let uc = RejectRequest {};
    let input = RejectRequestInput { request_id: "req-001".to_string(), comment };
    let votes = uc.execute(input, make_user(id))?.found(Some(request))?.parsed(Ok(Some(make_workflow())))?;
    let ready = match votes.counted(0)? {
        RejectStep::Own(s) => s,
        RejectStep::Eligibility(s) => {
            assert_eq!(s.groups.len(), 1);
            s.checked(matched)?
        },
    };
    let transition = ready.at(NOW)?;
    let context = transition.context();
    let reply = machine(from, &[RequestStatus::Pending], RequestStatus::Rejected, context);
    Ok(transition.transitioned(reply)?.identified("test-id-001".to_string()))
}

#[test]
fn requester_can_reject_own_request() {
    match reject(make_request(RequestStatus::Pending), "alice", &vec![false], None) {
        Ok(commit) => {
            assert!(commit.approval.action == ApprovalAction::Reject);
            assert_eq!(commit.approval.actor_id, "alice");
            assert_eq!(commit.approval.id, "test-id-001");
            let (out, _) = commit.committed();
            assert_eq!(out.status, RequestStatus::Rejected);
        },
        Err(_) => panic!("refused"),
    }
}

#[test]
fn reject_request_wrong_status_returns_conflict() {
    let r = reject(make_request(RequestStatus::Approved), "alice", &vec![false], None);
    assert!(matches!(r, Err(AppError::Conflict(_))));
}

#[test]
fn a_rejection_that_changes_nothing_is_a_conflict() {
    match reject(make_request(RequestStatus::Pending), "alice", &vec![false], None) {
        Ok(commit) => {
            assert!(commit.marked(true).is_ok());
            assert!(matches!(
                commit.marked(false),
                Err(AppError::Conflict(m)) if m == "concurrent status change"
            ));
        },
        Err(_) => panic!("refused"),
    }
}

#[test]
fn approver_rejects_under_the_matched_selector() {
    match reject(make_request(RequestStatus::Pending), "bob", &vec![true], None) {
        Ok(commit) => assert_eq!(commit.approval.matched_selector, "role:dba"),
        Err(_) => panic!("refused"),
    }
}

#[test]
fn others_may_not_reject() {
    let r = reject(make_request(RequestStatus::Pending), "bob", &vec![false], None);
    assert!(matches!(r, Err(AppError::Forbidden(_))));
}

#[test]
fn expired_request_cannot_be_rejected() {
    let mut request = make_request(RequestStatus::Pending);
    request.expires_at = Some(NOW);
    let r = reject(request, "alice", &vec![false], None);
    assert!(matches!(r, Err(AppError::Gone(_))));
}

#[test]
fn long_rejection_comment_is_refused() {
    let r = reject(
        make_request(RequestStatus::Pending),
        "alice",
        &vec![false],
        Some("c".repeat(1025)),
    );
    assert!(matches!(r, Err(AppError::Validation(_))));
}
