use dbward_app::domain::{
    ApproverGroup, AuthUser, Operation, Permission, Request, RequestStatus, Selector, SubjectType,
    Workflow, WorkflowStep, WorkflowStepMode,
};
use dbward_app::error::{AppError, AuthzError};
use dbward_app::time::Timestamp;
use dbward_app::use_cases::list_requests::{
    ListAllStep, ListRequests, ListRequestsInput, ListRequestsOutput, ListStep, RequestSummary,
};

const NOW: Timestamp = Timestamp { secs: 1_700_000_000, nanos: 0 };

fn make_request(status: RequestStatus) -> Request {
    Request {
        id: "req-001".to_string(),
        requester: "alice".to_string(),
        database: "app".to_string(),
        environment: "production".to_string(),
        operation: Operation::ExecuteDml,
        detail: "SELECT 1".to_string(),
        status,
        emergency: false,
        reason: None,
        idempotency_key: None,
        idempotency_fingerprint: None,
        metadata_json: "{}".to_string(),
        share_with: vec![],
        no_result_store: false,
        workflow_snapshot_json: None,
        decision_trace_json: None,
        execution_plan_json: None,
        cancel_reason: None,
        cancelled_by: None,
        created_at: NOW,
        updated_at: NOW,
        resolved_at: None,
        expires_at: None,
    }
}

fn make_user(id: &str) -> AuthUser {
    AuthUser {
        subject_id: id.to_string(),
        subject_type: SubjectType::User,
        roles: vec![],
        groups: vec![],
        token_id: None,
    }
}

fn denied(permission: Permission) -> Result<(), AuthzError> {
    Err(AuthzError::Forbidden { permission, reason: "denied".to_string() })
}

fn make_workflow() -> Workflow {
    Workflow {
        id: "wf-1".to_string(),
        database: "app".to_string(),
        environment: "production".to_string(),
        operations: vec![],
        auto_approve: None,
        steps: vec![WorkflowStep {
            approvers: vec![ApproverGroup { selector: Selector::Role("dba".to_string()), min: 1 }],
            mode: WorkflowStepMode::Any,
        }],
        require_reason: false,
        allow_self_approve: false,
        allow_same_approver_across_steps: true,
        explain: true,
        pending_ttl_secs: None,
        statement_timeout_secs: None,
        approval_ttl_secs: None,
        created_at: None,
        updated_at: None,
    }
}

fn plain_input() -> ListRequestsInput {
    ListRequestsInput {
        limit: None,
        offset: None,
        status: None,
        user: None,
        pending_for_me: None,
    }
}

fn named(id: &str, requester: &str, status: RequestStatus) -> Request {
    let mut request = make_request(status);
    request.id = id.to_string();
    request.requester = requester.to_string();
    request
}

fn none_for(requests: &Vec<Request>) -> Vec<Option<Workflow>> {
    requests.iter().map(|_| None).collect()
}

/// Lists from a store that holds the requests given.
fn list(
    input: ListRequestsInput,
    id: &str,
    allowed: bool,
    can_approve: bool,
    all: Vec<Request>,
    visible: Vec<Request>,
) -> Result<ListRequestsOutput, AppError> {
    let view = if allowed { Ok(()) } else { denied(Permission::RequestView) };
    let step = ListRequests {}.execute(input, make_user(id)).authorized(view, can_approve)?;
    let out = match step {
        ListStep::Pending(s) => {
            let workflows = none_for(&visible);
            let total = visible.len() as u32;
            s.page.listed(&visible, &workflows, total)
        },
        ListStep::All(s) => {
            let workflows = none_for(&all);
            let total = all.len() as u32;
            match s.listed(&all, &workflows, total) {
                ListAllStep::Done(out) => out,
                ListAllStep::Visible(s) => {
                    let workflows = none_for(&visible);
                    let total = visible.len() as u32;
                    s.listed(&visible, &workflows, total)
                },
            }
        },
    };
    Ok(out)
}

fn admin_list(input: ListRequestsInput, all: Vec<Request>) -> ListRequestsOutput {
    let mut user = make_user("admin-user");
    user.roles = vec!["admin".to_string()];
    let step = ListRequests {}
        .execute(input, user)
        .authorized(Ok(()), true)
        .unwrap_or_else(|_| panic!("refused"));
    match step {
        ListStep::All(s) => {
            let workflows = none_for(&all);
            let total = all.len() as u32;
            match s.listed(&all, &workflows, total) {
                ListAllStep::Done(out) => out,
                ListAllStep::Visible(_) => panic!("restricted"),
            }
        },
        ListStep::Pending(_) => panic!("pending"),
    }
}

#[test]
fn admin_sees_all_requests() {
    let out = admin_list(
        plain_input(),
        vec![
            named("r1", "alice", RequestStatus::Pending),
            named("r2", "bob", RequestStatus::Approved),
        ],
    );
    assert_eq!(out.requests.len(), 2);
    assert_eq!(out.total, 2);
}

#[test]
fn non_admin_sees_own_and_pending_approvable() {
    let all = vec![
        named("r1", "alice", RequestStatus::Pending),
        named("r2", "bob", RequestStatus::Approved),
        named("r3", "alice", RequestStatus::Approved),
    ];
    let visible = vec![
        named("r1", "alice", RequestStatus::Pending),
        named("r3", "alice", RequestStatus::Approved),
    ];
    let out = list(plain_input(), "alice", true, true, all, visible)
        .unwrap_or_else(|_| panic!("refused"));
    assert_eq!(out.requests.len(), 2);
    assert_eq!(out.total, 2);
}

#[test]
fn list_requests_forbidden_when_no_permission() {
    let r = list(plain_input(), "nobody", false, false, vec![], vec![]);
    assert!(matches!(r, Err(AppError::Forbidden(_))));
}

#[test]
fn limit_capped_at_100() {
    let mut input = plain_input();
    input.limit = Some(999);
    let out = admin_list(input, vec![]);
    assert_eq!(out.limit, 100);
    assert_eq!(admin_list(plain_input(), vec![]).limit, 50);
}

#[test]
fn filter_by_user_keeps_theirs() {
    let mut input = plain_input();
    input.user = Some("bob".to_string());
    let visible = vec![
        named("r1", "alice", RequestStatus::Pending),
        named("r2", "bob", RequestStatus::Pending),
    ];
    let out = list(input, "alice", true, true, vec![], visible)
        .unwrap_or_else(|_| panic!("refused"));
    assert_eq!(out.requests.len(), 1);
    assert_eq!(out.requests[0].requester, "bob");
}

#[test]
fn pending_request_shows_its_next_approvers() {
    let mut request = make_request(RequestStatus::Pending);
    request.workflow_snapshot_json = Some("{}".to_string());
    let s = RequestSummary::from_request(&request, &Some(make_workflow()));
    assert_eq!(s.current_step, None);
    assert_eq!(s.total_steps, Some(1));
    assert_eq!(s.next_approvers, vec!["role:dba".to_string()]);
    assert_eq!(s.status, "pending");
    assert_eq!(s.operation, "execute_dml");
}
