use dbward_app::domain::{
    Approval, ApprovalAction, ApproverGroup, AuthUser, Operation, Request, RequestStatus,
    RequestTrigger, ResourceContext, Selector, SubjectType, TransitionContext, TransitionEvent,
    Workflow, WorkflowStep, WorkflowStepMode,
};
use dbward_app::error::AppError;
use dbward_app::time::Timestamp;
use dbward_app::use_cases::approve_request::{
    choose_selector, collect_earlier_approvers, is_expired, ApproveRequest, ApproveRequestInput,
    ApproveRequestOutput, Approved,
};

const NOW: Timestamp = Timestamp { secs: 1_700_000_000, nanos: 0 };

fn after(secs: i64) -> Timestamp {
    Timestamp { secs: 1_700_000_000 + secs, nanos: 0 }
}

fn make_user(id: &str, roles: &[&str]) -> AuthUser {
    AuthUser {
        subject_id: id.to_string(),
        subject_type: SubjectType::User,
        roles: roles.iter().map(|r| r.to_string()).collect(),
        groups: vec![],
        token_id: None,
    }
}

fn make_pending_request() -> Request {
    Request {
        id: "req-001".to_string(),
        requester: "alice".to_string(),
        database: "app".to_string(),
        environment: "production".to_string(),
        operation: Operation::ExecuteDml,
        detail: "UPDATE users SET active = true".to_string(),
        status: RequestStatus::Pending,
        emergency: false,
        reason: None,
        idempotency_key: None,
        idempotency_fingerprint: None,
        metadata_json: "{}".to_string(),
        share_with: vec![],
        no_result_store: false,
        workflow_snapshot_json: Some("{}".to_string()),
        decision_trace_json: None,
        execution_plan_json: None,
        cancel_reason: None,
        cancelled_by: None,
        created_at: NOW,
        updated_at: NOW,
        resolved_at: None,
        expires_at: None,
    }
}

fn workflow(roles: &[&str], mode: WorkflowStepMode) -> Workflow {
    Workflow {
        id: "wf-1".to_string(),
        database: "app".to_string(),
        environment: "production".to_string(),
        operations: vec![],
        auto_approve: None,
        steps: vec![WorkflowStep {
            approvers: roles
                .iter()
                .map(|r| ApproverGroup { selector: Selector::Role(r.to_string()), min: 1 })
                .collect(),
            mode,
        }],
        require_reason: false,
        allow_self_approve: false,
        allow_same_approver_across_steps: true,
        explain: true,
        pending_ttl_secs: None,
        statement_timeout_secs: None,
        approval_ttl_secs: None,
        created_at: None,
        updated_at: None,
    }
}

fn single_step_workflow() -> Workflow {
    workflow(&["dba"], WorkflowStepMode::Any)
}

fn multi_group_workflow() -> Workflow {
    workflow(&["dba", "sre"], WorkflowStepMode::All)
}

fn plain_input() -> ApproveRequestInput {
    ApproveRequestInput { request_id: "req-001".to_string(), comment: None, selector: None }
}

fn answer(c: TransitionContext, to: RequestStatus) -> TransitionEvent {
    TransitionEvent {
        request_id: c.request_id,
        previous_status: RequestStatus::Pending,
        new_status: to,
        actor_id: c.actor_id,
        actor_type: c.actor_type,
        database: c.database,
        environment: c.environment,
        operation: c.operation,
        timestamp: c.timestamp,
        metadata: c.metadata,
        requester_id: c.requester_id,
        auth_token_id: None,
    }
}

/// Which groups of the step the voter's roles match.
fn matched(user: &AuthUser, wf: &Workflow) -> Vec<bool> {
    wf.steps[0]
        .approvers
        .iter()
        .map(|g| match &g.selector {
            Selector::Role(r) => user.roles.contains(r),
            _ => false,
        })
        .collect()
}

fn vote(
    request: Option<Request>,
    wf: Workflow,
    input: ApproveRequestInput,
    user: AuthUser,
    approvals: Vec<Approval>,
) -> Result<Approved, AppError> {
    let found = matched(&user, &wf);
    let expires = request.as_ref().and_then(|r| r.expires_at);
    let status = request.as_ref().map(|r| r.status);
    let requester = request.as_ref().map(|r| r.requester.clone());
    let approvable = found.contains(&true)
        && (wf.allow_self_approve || requester != Some(user.subject_id.clone()));
    let all = wf.steps[0].approvers.len();
    let uc = ApproveRequest {};
    let check = uc.execute(input, user)?.found(request)?;
    let lookup = check.at(NOW)?.parsed(Ok(wf))?;
    let authorizing = lookup.loaded(approvals.iter().map(|a| a.copy()).collect(), 0)?;
    match authorizing.context() {
        ResourceContext::ApprovalStep { requester_id, step_index, allow_self_approve, .. } => {
            assert_eq!(requester_id, "alice");
            assert_eq!(step_index, 0);
            assert!(!allow_self_approve);
        },
        _ => panic!("not a step"),
    }
    let ready = authorizing.authorized(Ok(()))?;
    let tx = ready.begun("ap-1".to_string(), NOW, status.map(|s| (s, expires)))?;
    let eligibility = tx.loaded(approvals, 0)?;
    let voted = eligibility.checked(approvable, &found)?;
    let satisfied = voted.all_approvals.len() >= all;
    let next = if satisfied { 1 } else { 0 };
    let transition = voted.counted(satisfied, next);
    let (to, expected) = if satisfied {
        (RequestStatus::Approved, RequestTrigger::ApproveFinal)
    } else {
        (RequestStatus::Pending, RequestTrigger::ApproveStep)
    };
    assert!(transition.trigger() == expected);
    let event = answer(transition.context(), to);
    let commit = transition.transitioned(Ok(event))?;
    assert_eq!(commit.mark_approved, satisfied);
    commit.marked(true)?;
    Ok(commit.committed())
}

fn outcome(
    request: Option<Request>,
    wf: Workflow,
    input: ApproveRequestInput,
    user: AuthUser,
) -> Result<ApproveRequestOutput, AppError> {
    vote(request, wf, input, user, vec![]).map(|a| a.output)
}

#[test]
fn approve_single_step_marks_approved() {
    let out = outcome(
        Some(make_pending_request()),
        single_step_workflow(),
        plain_input(),
        make_user("bob", &["dba"]),
    );
    match out {
        Ok(out) => {
            assert_eq!(out.status, RequestStatus::Approved);
            assert_eq!(out.step_completed, 1);
            assert_eq!(out.current_step, 1);
            assert_eq!(out.total_steps, 1);
            assert_eq!(out.approved_by, "bob");
            assert_eq!(out.matched_selector, "role:dba");
        },
        Err(_) => panic!("refused"),
    }
}

#[test]
fn self_approve_blocked() {
    let out = outcome(
        Some(make_pending_request()),
        single_step_workflow(),
        plain_input(),
        make_user("alice", &["dba"]),
    );
    assert!(out.is_err());
}

#[test]
fn approve_request_wrong_status_returns_conflict() {
    let mut req = make_pending_request();
    req.status = RequestStatus::Approved;
    let out = outcome(Some(req), single_step_workflow(), plain_input(), make_user("bob", &["dba"]));
    assert!(matches!(out, Err(AppError::Conflict(_))));
}

#[test]
fn approve_request_not_found_returns_error() {
    let input = ApproveRequestInput {
        request_id: "nope".to_string(),
        comment: None,
        selector: None,
    };
    let out = outcome(None, single_step_workflow(), input, make_user("bob", &["dba"]));
    assert!(matches!(out, Err(AppError::NotFound(_))));
}

#[test]
fn expired_request_returns_gone() {
    let mut req = make_pending_request();
    req.expires_at = Some(after(-10));
    let out = outcome(Some(req), single_step_workflow(), plain_input(), make_user("bob", &["dba"]));
    assert!(matches!(out, Err(AppError::Gone(_))));
}

#[test]
fn not_expired_request_proceeds() {
    let mut req = make_pending_request();
    req.expires_at = Some(after(3600));
    let out = outcome(Some(req), single_step_workflow(), plain_input(), make_user("bob", &["dba"]));
    assert!(out.is_ok());
}

#[test]
fn ambiguous_selector_returns_validation_error() {
    let out = outcome(
        Some(make_pending_request()),
        multi_group_workflow(),
        plain_input(),
        make_user("bob", &["dba", "sre"]),
    );
    assert!(matches!(out, Err(AppError::Validation(msg)) if msg.contains("ambiguous")));
}

#[test]
fn explicit_selector_succeeds() {
    let input = ApproveRequestInput {
        request_id: "req-001".to_string(),
        comment: None,
        selector: Some("role:dba".to_string()),
    };
    let out = outcome(
        Some(make_pending_request()),
        multi_group_workflow(),
        input,
        make_user("bob", &["dba", "sre"]),
    );
    match out {
        Ok(out) => {
            assert_eq!(out.matched_selector, "role:dba");
            assert_eq!(out.status, RequestStatus::Pending);
        },
        Err(_) => panic!("refused"),
    }
}

#[test]
fn explicit_selector_not_matched_returns_validation() {
    let input = ApproveRequestInput {
        request_id: "req-001".to_string(),
        comment: None,
        selector: Some("role:sre".to_string()),
    };
    let out = outcome(
        Some(make_pending_request()),
        multi_group_workflow(),
        input,
        make_user("bob", &["dba"]),
    );
    assert!(matches!(out, Err(AppError::Validation(msg)) if msg.contains("do not match")));
}

#[test]
fn no_match_returns_forbidden() {
    let out = outcome(
        Some(make_pending_request()),
        single_step_workflow(),
        plain_input(),
        make_user("bob", &["developer"]),
    );
    assert!(matches!(out, Err(AppError::Forbidden(_))));
}

fn approval(actor: &str, selector: &str, step: u32) -> Approval {
    Approval {
        id: "ap-0".to_string(),
        request_id: "req-001".to_string(),
        action: ApprovalAction::Approve,
        actor_id: actor.to_string(),
        matched_selector: selector.to_string(),
        step_index: step,
        comment: None,
        created_at: NOW,
    }
}

#[test]
fn second_group_completes_the_step() {
    let out = vote(
        Some(make_pending_request()),
        multi_group_workflow(),
        plain_input(),
        make_user("carol", &["sre"]),
        vec![approval("bob", "role:dba", 0)],
    );
    match out {
        Ok(a) => {
            assert_eq!(a.output.status, RequestStatus::Approved);
            assert_eq!(a.output.matched_selector, "role:sre");
            assert_eq!(a.notice.request_id, Some("req-001".to_string()));
        },
        Err(_) => panic!("refused"),
    }
}

#[test]
fn nobody_votes_twice_on_a_step() {
    let out = vote(
        Some(make_pending_request()),
        multi_group_workflow(),
        plain_input(),
        make_user("bob", &["sre"]),
        vec![approval("bob", "role:dba", 0)],
    );
    assert!(matches!(out, Err(AppError::Conflict(_))));
}

#[test]
fn long_comment_is_refused() {
    let mut input = plain_input();
    input.comment = Some("c".repeat(1025));
    let out = outcome(
        Some(make_pending_request()),
        single_step_workflow(),
        input,
        make_user("bob", &["dba"]),
    );
    assert!(matches!(out, Err(AppError::Validation(_))));
    let mut input = plain_input();
    input.comment = Some("c".repeat(1024));
    let out = outcome(
        Some(make_pending_request()),
        single_step_workflow(),
        input,
        make_user("bob", &["dba"]),
    );
    assert!(out.is_ok());
}

#[test]
fn filled_selector_is_not_chosen_again() {
    let groups = vec![
        ApproverGroup { selector: Selector::Role("dba".to_string()), min: 1 },
        ApproverGroup { selector: Selector::Role("sre".to_string()), min: 1 },
    ];
    let both = vec!["role:dba".to_string(), "role:sre".to_string()];
    let given = vec![approval("bob", "role:dba", 0)];
    let chosen = choose_selector(&groups, &given, 0, &None, &both);
    assert!(matches!(chosen, Ok(s) if s == "role:sre"));
    let chosen = choose_selector(&groups, &given, 0, &Some("role:dba".to_string()), &both);
    assert!(chosen.is_err());
}

#[test]
fn earlier_approvers_are_those_of_earlier_steps() {
    let given = vec![approval("bob", "role:dba", 0), approval("carol", "role:sre", 1)];
    assert_eq!(collect_earlier_approvers(&given, 1), vec!["bob".to_string()]);
    assert!(collect_earlier_approvers(&given, 0).is_empty());
}

#[test]
fn end_itself_is_expired() {
    assert!(is_expired(&Some(NOW), &NOW));
    assert!(!is_expired(&Some(after(1)), &NOW));
    assert!(!is_expired(&None, &NOW));
}

#[test]
fn lost_race_on_approval_is_a_conflict() {
    let uc = ApproveRequest {};
    let check = uc
        .execute(plain_input(), make_user("bob", &["dba"]))
        .unwrap_or_else(|_| panic!("refused"));
    let check = check.found(Some(make_pending_request())).unwrap_or_else(|_| panic!("refused"));
    let check = check.at(NOW).unwrap_or_else(|_| panic!("refused"));
    assert!(matches!(check.parsed(Err("bad".to_string())), Err(AppError::Internal(_))));
}
