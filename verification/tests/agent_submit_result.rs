use dbward_app::domain::{
    AuthUser, DeliveryMode, Execution, ExecutionStatus, Operation, Request, RequestStatus,
    ResultPolicy, Selector, SubjectType, TransitionContext, TransitionEvent, TransitionReply,
};
use dbward_app::error::{AppError, AuthzError};
use dbward_app::domain::Permission;
use dbward_app::ports::repos::CompletionOutcome;
use dbward_app::time::Timestamp;
use dbward_app::use_cases::agent_submit_result::{
    completion_outcome, execution_marked, parse_selector_for_access, result_expiry,
    AgentSubmitResult, AgentSubmitResultInput, CompletionCommit, SelectorType, StoreStep,
    SubmitStep, Submitted,
};

const NOW: Timestamp = Timestamp { secs: 1_700_000_000, nanos: 0 };

fn agent_user() -> AuthUser {
    AuthUser {
        subject_id: "agent-1".to_string(),
        subject_type: SubjectType::Agent,
        roles: vec!["agent-default".to_string()],
        groups: vec![],
        token_id: None,
    }
}

fn make_execution(status: ExecutionStatus) -> Execution {
    Execution {
        id: "exec-1".to_string(),
        request_id: "req-1".to_string(),
        agent_id: "agent-1".to_string(),
        status,
        token: "tok".to_string(),
        lease_expires_at: Timestamp { secs: NOW.secs + 300, nanos: 0 },
        started_at: Some(NOW),
        finished_at: None,
        error_message: None,
        created_at: NOW,
    }
}

fn make_request(status: RequestStatus) -> Request {
    Request {
        id: "req-1".to_string(),
        requester: "alice".to_string(),
        database: "app".to_string(),
        environment: "production".to_string(),
        operation: Operation::ExecuteDml,
        detail: "UPDATE t SET x=1".to_string(),
        status,
        emergency: false,
        reason: None,
        idempotency_key: None,
        idempotency_fingerprint: None,
        metadata_json: "{}".to_string(),
        share_with: vec![],
        no_result_store: false,
        workflow_snapshot_json: None,
        decision_trace_json: None,
        execution_plan_json: None,
        cancel_reason: None,
        cancelled_by: None,
        created_at: NOW,
        updated_at: NOW,
        resolved_at: None,
        expires_at: None,
    }
}

fn input(success: bool, data: Option<Vec<u8>>, error: Option<&str>) -> AgentSubmitResultInput {
    AgentSubmitResultInput {
        execution_id: "exec-1".to_string(),
        success,
        result_data: data,
        error_message: error.map(|e| e.to_string()),
        rows_affected: None,
        duration_ms: None,
    }
}

fn settings() -> AgentSubmitResult {
    AgentSubmitResult {
        max_persist_bytes: 10 * 1024 * 1024,
        storage_backend: "local".to_string(),
    }
}

fn policy(mode: DeliveryMode) -> ResultPolicy {
    ResultPolicy {
        id: "rp-1".to_string(),
        database: "app".to_string(),
        environment: "production".to_string(),
        retention_days: 7,
        delivery_mode: mode,
        access: vec![Selector::Role("dba".to_string()), Selector::Group("ops".to_string())],
        created_at: None,
        updated_at: None,
    }
}

/// The status machine on a completion.
fn complete(from: RequestStatus, success: bool, c: TransitionContext) -> TransitionReply {
    let to = match from {
        RequestStatus::Running | RequestStatus::ExecutionLost => {
            if success { RequestStatus::Executed } else { RequestStatus::Failed }
        },
        RequestStatus::Cancelled => RequestStatus::Cancelled,
        _ => return Err("invalid transition".to_string()),
    };
    Ok(TransitionEvent {
        request_id: c.request_id,
        previous_status: from,
        new_status: to,
        actor_id: c.actor_id,
        actor_type: c.actor_type,
        database: c.database,
        environment: c.environment,
        operation: c.operation,
        timestamp: c.timestamp,
        metadata: c.metadata,
        requester_id: c.requester_id,
        auth_token_id: None,
    })
}

fn report(
    uc: AgentSubmitResult,
    given: AgentSubmitResultInput,
    execution: Option<Execution>,
    request: Option<Request>,
    rule: Option<ResultPolicy>,
) -> Result<CompletionCommit, AppError> {
    let success = given.success;
    let from = request.as_ref().map(|r| r.status).unwrap_or(RequestStatus::Pending);
    let check = uc.execute(given, &agent_user()).authorized(Ok(()))?.found(execution)?;
    let completing = check.authorized(Ok(()))?.found(request)?;
    let context = completing.context(NOW);
    let step = completing.transitioned(complete(from, success, context))?.policy(rule)?;
    let recording = match step {
        StoreStep::Skip(s) => s,
        StoreStep::PutData(s) => s.stored().described(NOW),
        StoreStep::Describe(s) => s.described(NOW),
        StoreStep::PutFailure(s) => s.stored(NOW),
    };
    Ok(recording.record(NOW))
}

fn finish(commit: CompletionCommit, outcome: CompletionOutcome) -> Submitted {
    match commit.committed(Ok(outcome)) {
        SubmitStep::Done(d) => d,
        SubmitStep::Failed(_) => panic!("failed"),
    }
}

fn submit(
    given: AgentSubmitResultInput,
    execution: ExecutionStatus,
    request: RequestStatus,
    outcome: CompletionOutcome,
) -> Result<Submitted, AppError> {
    let commit = report(
        settings(),
        given,
        Some(make_execution(execution)),
        Some(make_request(request)),
        None,
    )?;
    Ok(finish(commit, outcome))
}

#[test]
fn execution_not_found_returns_error() {
    let r = report(settings(), input(true, None, None), None, None, None);
    assert!(matches!(r, Err(AppError::NotFound(_))));
}

#[test]
fn not_claimed_returns_conflict() {
    let r = submit(
        input(true, None, None),
        ExecutionStatus::Completed,
        RequestStatus::Running,
        CompletionOutcome::Normal,
    );
    assert!(matches!(r, Err(AppError::Conflict(_))));
}

#[test]
fn success_submit_returns_executed() {
    let r = submit(
        input(true, Some(b"rows".to_vec()), None),
        ExecutionStatus::Claimed,
        RequestStatus::Running,
        CompletionOutcome::Normal,
    );
    assert!(matches!(r, Ok(s) if s.output.status == RequestStatus::Executed));
}

#[test]
fn failure_submit_returns_failed() {
    let r = submit(
        input(false, None, Some("timeout")),
        ExecutionStatus::Claimed,
        RequestStatus::Running,
        CompletionOutcome::Normal,
    );
    assert!(matches!(r, Ok(s) if s.output.status == RequestStatus::Failed));
}

#[test]
fn cancelled_request_stays_cancelled() {
    let r = submit(
        input(true, None, None),
        ExecutionStatus::Claimed,
        RequestStatus::Cancelled,
        CompletionOutcome::Normal,
    );
    assert!(matches!(r, Ok(s) if s.output.status == RequestStatus::Cancelled));
}

#[test]
fn payload_too_large_rejected() {
    let uc = AgentSubmitResult { max_persist_bytes: 10, storage_backend: "local".to_string() };
    let r = report(
        uc,
        input(true, Some(vec![0u8; 11]), None),
        Some(make_execution(ExecutionStatus::Claimed)),
        Some(make_request(RequestStatus::Running)),
        None,
    );
    assert!(matches!(r, Err(AppError::PayloadTooLarge(_))));
}

#[test]
fn late_completion_execution_lost_accepts_result() {
    let mut given = input(true, Some(b"ok".to_vec()), None);
    given.duration_ms = Some(100);
    let r = submit(
        given,
        ExecutionStatus::Failed,
        RequestStatus::ExecutionLost,
        CompletionOutcome::Normal,
    );
    assert!(matches!(r, Ok(s) if s.output.status == RequestStatus::Executed));
}

#[test]
fn late_completion_rejects_if_not_execution_lost() {
    let r = submit(
        input(true, None, None),
        ExecutionStatus::Failed,
        RequestStatus::Failed,
        CompletionOutcome::Normal,
    );
    assert!(matches!(r, Err(AppError::Conflict(_))));
}

#[test]
fn manifest_describes_what_was_stored() {
    let commit = report(
        settings(),
        input(true, Some(b"rows".to_vec()), None),
        Some(make_execution(ExecutionStatus::Claimed)),
        Some(make_request(RequestStatus::Running)),
        Some(policy(DeliveryMode::StoreOnly)),
    )
    .unwrap_or_else(|_| panic!("refused"));
    match &commit.manifest {
        Some(m) => {
            assert_eq!(m.content_length, 4);
            assert_eq!(
                m.checksum_sha256,
                "bc51e9e65d79e1c90ba544ab2eae1044ccdf8c1af7a559ba375cba4276f7d99e".to_string()
            );
            assert_eq!(m.retention_days, 7);
            assert_eq!(m.storage_backend, "local");
            assert_eq!(m.expires_at, Timestamp { secs: NOW.secs + 7 * 86_400, nanos: 0 });
        },
        None => panic!("no manifest"),
    }
    assert_eq!(commit.access.len(), 2);
    assert_eq!(commit.access[0].selector_type, SelectorType::Role);
    assert_eq!(commit.access[0].selector_value, "dba");
    assert_eq!(commit.access[1].selector_type, SelectorType::Group);
    let done = finish(commit, CompletionOutcome::Normal);
    assert!(done.publish.is_none());
}

#[test]
fn readers_are_told_with_readable_text() {
    let commit = report(
        settings(),
        input(true, Some(vec![b'o', b'k', 0xff]), None),
        Some(make_execution(ExecutionStatus::Claimed)),
        Some(make_request(RequestStatus::Running)),
        Some(policy(DeliveryMode::Stream)),
    )
    .unwrap_or_else(|_| panic!("refused"));
    assert!(matches!(&commit.manifest, Some(m) if m.storage_key.is_empty()));
    let done = finish(commit, CompletionOutcome::Normal);
    match done.publish {
        Some(p) => {
            assert!(p.success);
            assert_eq!(p.result_data, Some("ok\u{fffd}".to_string()));
        },
        None => panic!("nothing published"),
    }
}

#[test]
fn failure_is_kept_and_told_whatever_the_policy() {
    let commit = report(
        settings(),
        input(false, None, Some("timeout")),
        Some(make_execution(ExecutionStatus::Claimed)),
        Some(make_request(RequestStatus::Running)),
        Some(policy(DeliveryMode::Stream)),
    )
    .unwrap_or_else(|_| panic!("refused"));
    assert!(commit.manifest.is_some());
    let done = finish(commit, CompletionOutcome::Normal);
    match done.publish {
        Some(p) => {
            assert!(!p.success);
            assert_eq!(p.error_message, Some("timeout".to_string()));
        },
        None => panic!("nothing published"),
    }
}

#[test]
fn unstored_request_keeps_no_data() {
    let mut request = make_request(RequestStatus::Running);
    request.no_result_store = true;
    let commit = report(
        settings(),
        input(true, Some(b"rows".to_vec()), None),
        Some(make_execution(ExecutionStatus::Claimed)),
        Some(request),
        None,
    )
    .unwrap_or_else(|_| panic!("refused"));
    assert!(commit.manifest.is_none());
}

#[test]
fn failed_commit_removes_what_was_stored() {
    let commit = report(
        settings(),
        input(true, Some(b"rows".to_vec()), None),
        Some(make_execution(ExecutionStatus::Claimed)),
        Some(make_request(RequestStatus::Running)),
        None,
    )
    .unwrap_or_else(|_| panic!("refused"));
    match commit.committed(Err(AppError::Internal("disk".to_string()))) {
        SubmitStep::Failed(f) => {
            assert!(matches!(f.error, AppError::Internal(_)));
            assert!(f.delete_key.is_some());
        },
        SubmitStep::Done(_) => panic!("committed"),
    }
}

#[test]
fn submit_authz_denied_returns_forbidden() {
    let denied = AuthzError::Forbidden {
        permission: Permission::AgentOperate,
        reason: "denied".to_string(),
    };
    let r = settings().execute(input(true, None, None), &agent_user()).authorized(Err(denied));
    assert!(matches!(r, Err(AppError::Forbidden(_))));
}

#[test]
fn selectors_split_at_their_kind() {
    let (kind, value) = parse_selector_for_access("role:dba");
    assert_eq!(kind, SelectorType::Role);
    assert_eq!(value, "dba");
    let (kind, value) = parse_selector_for_access("group:ops");
    assert_eq!(kind, SelectorType::Group);
    assert_eq!(value, "ops");
    let (kind, value) = parse_selector_for_access("user:bob");
    assert_eq!(kind, SelectorType::User);
    assert_eq!(value, "bob");
}

#[test]
fn marks_decide_the_outcome() {
    assert!(execution_marked(true).is_ok());
    assert!(execution_marked(false).is_err());
    assert_eq!(completion_outcome(true), CompletionOutcome::Normal);
    assert_eq!(completion_outcome(false), CompletionOutcome::RequestCancelled);
    assert_eq!(result_expiry(&NOW, 1), Timestamp { secs: NOW.secs + 86_400, nanos: 0 });
}

#[test]
fn lost_race_keeps_what_is_stored() {
    let commit = report(
        settings(),
        input(true, Some(b"rows".to_vec()), None),
        Some(make_execution(ExecutionStatus::Claimed)),
        Some(make_request(RequestStatus::Running)),
        None,
    )
    .unwrap_or_else(|_| panic!("refused"));
    match commit.committed(Err(AppError::Conflict("race".to_string()))) {
        SubmitStep::Failed(f) => {
            assert!(matches!(f.error, AppError::Conflict(m) if m == "execution already completed"));
            assert!(f.delete_key.is_none());
        },
        SubmitStep::Done(_) => panic!("committed"),
    }
}
