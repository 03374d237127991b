use dbward_app::domain::{
    AuthUser, EventMetadata, Operation, Permission, RequestStatus, SubjectType, TransitionContext,
    TransitionEvent, Workflow, WorkflowStep, WorkflowStepMode, ApproverGroup, Selector, Request,
};
use dbward_app::error::{AppError, AuthzError};
use dbward_app::time::Timestamp;
use dbward_app::use_cases::create_request::{
    ApprovalDecision, AuthorizeStep, AutoApproveEntry, AutoApproveReason, BreakGlassDenial,
    Classification, Classified, ClassifyError, Commit, CommitStep, Completed, CreateRequest,
    CreateRequestInput, CreateRequestOutput, DecisionStep, DmlReason, Finding, IdempotencyStep,
    OperationStep, ParsedStatement, PersistStep, RegistryStep, RequestChannel, Review, ReviewStep,
    RiskAssessment, RuleAction, extract_approvers,
};
use dbward_app::use_cases::decision_trace::{DecisionReason, Outcome, RiskLevel};
use dbward_app::use_cases::risk_analysis::TableRef;

const NOW: Timestamp = Timestamp { secs: 1_700_000_000, nanos: 0 };

fn make_user() -> AuthUser {
    AuthUser {
        subject_id: "alice".to_string(),
        subject_type: SubjectType::User,
        roles: vec!["app-dev".to_string()],
        groups: vec![],
        token_id: Some("t1".to_string()),
    }
}

fn make_input() -> CreateRequestInput {
    CreateRequestInput {
        database: "app".to_string(),
        environment: "production".to_string(),
        operation: Operation::ExecuteSelect,
        detail: "SELECT 1".to_string(),
        reason: None,
        emergency: false,
        allow_ddl: false,
        idempotency_key: None,
        share_with: vec![],
        no_result_store: false,
        metadata_json: "{}".to_string(),
        channel: RequestChannel::Cli,
    }
}

fn make_workflow() -> Workflow {
    Workflow {
        id: "test-wf".to_string(),
        database: "*".to_string(),
        environment: "*".to_string(),
        operations: vec![],
        auto_approve: None,
        steps: vec![],
        require_reason: false,
        allow_self_approve: false,
        allow_same_approver_across_steps: false,
        explain: true,
        pending_ttl_secs: None,
        statement_timeout_secs: None,
        approval_ttl_secs: None,
        created_at: None,
        updated_at: None,
    }
}

/// What the surroundings answer.
struct World {
    allowed: bool,
    registered: bool,
    workflow: Option<Workflow>,
    existing: Option<Request>,
    blocked: Vec<Finding>,
    outcome: Result<(), AppError>,
    entry: Option<AutoApproveEntry>,
    ttl: Option<u64>,
}

fn world() -> World {
    World {
        allowed: true,
        registered: true,
        workflow: Some(make_workflow()),
        existing: None,
        blocked: vec![],
        outcome: Ok(()),
        entry: None,
        ttl: None,
    }
}

fn statement(text: &str, eligible: bool) -> ParsedStatement {
    ParsedStatement { text: text.to_string(), break_glass_eligible: eligible, safe_ddl: false }
}

/// A classifier that knows the statements of these tests.
fn classify(sql: &str) -> Classified {
    let statements = Some(vec![statement(sql, sql.starts_with("CREATE"))]);
    let outcome = if sql.starts_with("GRANT") || sql.starts_with("CREATE") {
        Err(ClassifyError::Rejected { reason: "statement is not allowed".to_string() })
    } else {
        Ok(Classification {
            operation: if sql.starts_with("SELECT") {
                Operation::ExecuteSelect
            } else {
                Operation::ExecuteDml
            },
            dml_reason: if sql.starts_with("SELECT") { None } else { Some(DmlReason::Other) },
            statement_count: 1,
            statements: vec![sql.to_string()],
            is_ddl_only: false,
        })
    };
    Classified { outcome, statements }
}

fn event(c: TransitionContext, from: RequestStatus, to: RequestStatus) -> TransitionEvent {
    TransitionEvent {
        request_id: c.request_id,
        previous_status: from,
        new_status: to,
        actor_id: c.actor_id,
        actor_type: c.actor_type,
        database: c.database,
        environment: c.environment,
        operation: c.operation,
        timestamp: c.timestamp,
        metadata: c.metadata,
        requester_id: c.requester_id,
        auth_token_id: None,
    }
}

enum End {
    Existing(CreateRequestOutput),
    Done(Completed, Trail),
}

/// What was to be written, besides the answer.
struct Trail {
    record_types: Vec<String>,
    reasons: Vec<DecisionReason>,
    outcome: Outcome,
    fingerprint: Option<String>,
    plan: Option<String>,
}

fn run(input: CreateRequestInput, w: World) -> Result<End, AppError> {
    let user = make_user();
    let uc = CreateRequest { default_approval_ttl_secs: w.ttl };
    let start = uc.execute(input, &user, w.entry)?;
    let reviewing = match start.dialect(None) {
        OperationStep::Explicit(s) => s,
        OperationStep::Classify(s) => {
            let reply = classify(s.submission.input.detail.as_str());
            match s.classified(reply) {
                Ok(s) => s,
                Err(refusal) => return Err(refusal.error),
            }
        },
    };
    let sql = reviewing.submission.input.detail.clone();
    let review = Review {
        statements: vec![statement(&sql, sql.starts_with("CREATE"))],
        blocked: !w.blocked.is_empty(),
        findings: w.blocked,
        tables: vec![TableRef { schema: None, name: "users".to_string() }],
    };
    let authorizing = match reviewing.reviewed(Some(review)) {
        ReviewStep::Unparsed(s) => s,
        ReviewStep::Blocked(s) => return Err(s.refuse(NOW).error),
        ReviewStep::Assess(s) => {
            let input = s.risk_input(&Ok(None), &Ok(None));
            assert_eq!(input.statement_count, 1);
            s.assessed(
                &Ok(None),
                RiskAssessment { level: RiskLevel::Unknown, factors: vec!["no schema".to_string()] },
            )
        },
    };
    let permission = authorizing.permission();
    let reply = if w.allowed {
        Ok(())
    } else {
        Err(AuthzError::Forbidden { permission, reason: "denied".to_string() })
    };
    let selectors = match authorizing.authorized(reply)? {
        AuthorizeStep::Selectors(s) => s,
        AuthorizeStep::Ddl(s) => s.authorized(Ok(()))?,
    };
    let errors = selectors.draft.submission.input.share_with.iter().map(|_| None).collect();
    let registry = selectors.checked(&errors)?;
    let lookup = match registry.registered(w.registered) {
        RegistryStep::Unregistered(s) => return Err(s.explain(Ok(vec![]))),
        RegistryStep::Fresh(s) => s,
        RegistryStep::Lookup(s) => match s.found(w.existing)? {
            IdempotencyStep::Existing(o) => return Ok(End::Existing(o)),
            IdempotencyStep::Fresh(s) => s,
        },
    };
    let status_lookup = match lookup.workflow(w.workflow)? {
        DecisionStep::Decided(s) => s,
        DecisionStep::Evaluate(s) => {
            if s.workflow.steps.is_empty() {
                let reason = AutoApproveReason::EmptySteps;
                s.evaluated(ApprovalDecision::AutoApproved { reason }, false)
            } else {
                s.evaluated(ApprovalDecision::NeedsApproval, true)
            }
        },
    };
    let initial = if status_lookup.draft.submission.input.emergency {
        RequestStatus::BreakGlass
    } else if status_lookup.needs_approval {
        RequestStatus::Pending
    } else {
        RequestStatus::AutoApproved
    };
    let composing = status_lookup.status(initial, Ok(Some("{}".to_string())))?;
    let tracing = composing.compose(NOW, "test-id-001".to_string());
    let reasons: Vec<DecisionReason> = tracing.trace.decision.reasons.iter().copied().collect();
    let outcome = tracing.trace.decision.outcome;
    let commit: Commit = match tracing.traced(Ok("{\"version\":1}".to_string()))? {
        PersistStep::Pending(s) => {
            let c = s.persisting.created_context();
            assert!(matches!(c.metadata, EventMetadata::Created { .. }));
            s.created(event(c, RequestStatus::Pending, RequestStatus::Pending))
        },
        PersistStep::Dispatch(s) => {
            let c = event(s.persisting.created_context(), initial, initial);
            let d = event(s.persisting.dispatched_context(), initial, RequestStatus::Dispatched);
            s.dispatched(c, Ok(d))?
        },
        PersistStep::Bypass(s) => {
            let c = event(s.persisting.created_context(), initial, initial);
            let d = event(s.persisting.dispatched_context(), initial, RequestStatus::Dispatched);
            s.dispatched(c, Ok(d), NOW, "CREATE TABLE ?".to_string())?
        },
    };
    let trail = Trail {
        record_types: commit.records.iter().map(|e| e.event_type.clone()).collect(),
        reasons,
        outcome,
        fingerprint: commit.request.idempotency_fingerprint.clone(),
        plan: commit.request.execution_plan_json.clone(),
    };
    match commit.committed(w.outcome) {
        CommitStep::Done(d) => Ok(End::Done(d, trail)),
        CommitStep::Raced(s) => {
            assert_eq!(s.caller_id, "alice");
            Ok(End::Existing(s.found(None)?))
        },
        CommitStep::Failed(f) => Err(f.error),
    }
}

fn done(input: CreateRequestInput, w: World) -> (Completed, Trail) {
    match run(input, w) {
        Ok(End::Done(d, t)) => (d, t),
        Ok(End::Existing(_)) => panic!("existing request"),
        Err(e) => panic!("refused: {}", e.message("permission")),
    }
}

fn refused(input: CreateRequestInput, w: World) -> AppError {
    match run(input, w) {
        Err(e) => e,
        Ok(_) => panic!("not refused"),
    }
}

fn stored(fingerprint: Option<&str>) -> Request {
    Request {
        id: "old-1".to_string(),
        requester: "alice".to_string(),
        database: "app".to_string(),
        environment: "production".to_string(),
        operation: Operation::ExecuteSelect,
        detail: "SELECT 1".to_string(),
        status: RequestStatus::Executed,
        emergency: false,
        reason: None,
        idempotency_key: Some("k1".to_string()),
        idempotency_fingerprint: fingerprint.map(|f| f.to_string()),
        metadata_json: "{}".to_string(),
        share_with: vec![],
        no_result_store: false,
        workflow_snapshot_json: None,
        decision_trace_json: None,
        execution_plan_json: None,
        cancel_reason: None,
        cancelled_by: None,
        created_at: NOW,
        updated_at: NOW,
        resolved_at: None,
        expires_at: None,
    }
}

// The SHA-256 digest of "SELECT 1" in hexadecimal.
const SELECT_ONE: &str = "e004ebd5b5532a4b85984a62f8ad48a81aa3460c1ca07701f386135d72cdecf5";

#[test]
fn success_creates_auto_approved_request() {
    let (d, t) = done(make_input(), world());
    assert_eq!(d.output.id, "test-id-001");
    assert_eq!(d.output.status, RequestStatus::Dispatched);
    assert!(!d.output.is_existing);
    assert_eq!(t.reasons, vec![DecisionReason::EmptySteps]);
    assert_eq!(t.outcome, Outcome::AutoApproved);
    assert_eq!(t.plan, Some("[\"SELECT 1\"]".to_string()));
}

#[test]
fn denied_by_authorizer() {
    let mut w = world();
    w.allowed = false;
    assert!(matches!(refused(make_input(), w), AppError::Forbidden(_)));
}

#[test]
fn migrate_up_uses_input_operation_directly() {
    let mut input = make_input();
    input.operation = Operation::MigrateUp;
    input.detail = "migrations/001_init.sql".to_string();
    let (d, _) = done(input, world());
    assert_eq!(d.output.operation, Operation::MigrateUp);
}

#[test]
fn migrate_down_uses_input_operation_directly() {
    let mut input = make_input();
    input.operation = Operation::MigrateDown;
    input.detail = "migrations/001_init.sql".to_string();
    let (d, _) = done(input, world());
    assert_eq!(d.output.operation, Operation::MigrateDown);
}

#[test]
fn execute_select_still_classifies_from_sql() {
    let mut input = make_input();
    input.operation = Operation::ExecuteSelect;
    input.detail = "INSERT INTO t VALUES (1)".to_string();
    let (d, _) = done(input, world());
    assert_eq!(d.output.operation, Operation::ExecuteDml);
}

#[test]
fn detail_too_long_returns_validation() {
    let mut input = make_input();
    input.detail = "x".repeat(100_001);
    let err = refused(input, world());
    assert!(matches!(err, AppError::Validation(ref m) if m.contains("query too long")));
}

#[test]
fn detail_at_the_limit_is_admitted() {
    let mut input = make_input();
    input.detail = format!("SELECT {}", "1".repeat(99_993));
    let (d, _) = done(input, world());
    assert_eq!(d.output.status, RequestStatus::Dispatched);
}

#[test]
fn reason_too_long_returns_validation() {
    let mut input = make_input();
    input.reason = Some("r".repeat(1025));
    let err = refused(input, world());
    assert!(matches!(err, AppError::Validation(ref m) if m.contains("reason too long")));
}

#[test]
fn ddl_rejected_returns_validation() {
    let mut input = make_input();
    input.detail = "GRANT ALL ON users TO admin".to_string();
    let err = refused(input, world());
    assert!(matches!(err, AppError::Validation(_)));
}

#[test]
fn unregistered_db_returns_validation() {
    let mut w = world();
    w.registered = false;
    let err = refused(make_input(), w);
    assert!(
        matches!(err, AppError::Validation(ref m) if m.contains("not registered in environment"))
    );
}

#[test]
fn require_reason_enforced() {
    let mut w = world();
    let mut wf = make_workflow();
    wf.require_reason = true;
    w.workflow = Some(wf);
    let err = refused(make_input(), w);
    assert!(matches!(err, AppError::Validation(ref m) if m == "reason_required"));
}

#[test]
fn mcp_emergency_rejected() {
    let mut input = make_input();
    input.channel = RequestChannel::Mcp;
    input.emergency = true;
    input.reason = Some("incident".to_string());
    let err = refused(input, world());
    assert!(
        matches!(err, AppError::Validation(ref m) if m.contains("emergency requests are not allowed via MCP/Slack"))
    );
}

#[test]
fn risk_level_computed_for_dml() {
    let mut input = make_input();
    input.detail = "DELETE FROM users WHERE id = 1".to_string();
    let (d, _) = done(input, world());
    assert_eq!(d.output.status, RequestStatus::Dispatched);
}

#[test]
fn schema_change_needs_a_declared_emergency() {
    let mut input = make_input();
    input.allow_ddl = true;
    let err = refused(input, world());
    assert!(matches!(err, AppError::Validation(ref m) if m == "--allow-ddl requires --emergency"));

    let mut input = make_input();
    input.allow_ddl = true;
    input.emergency = true;
    input.channel = RequestChannel::Slack;
    let err = refused(input, world());
    assert!(
        matches!(err, AppError::Validation(ref m) if m == "--allow-ddl is not allowed via MCP/Slack")
    );
}

#[test]
fn emergency_without_a_reason_is_refused() {
    let mut input = make_input();
    input.emergency = true;
    let err = refused(input, world());
    assert!(matches!(err, AppError::Validation(_)));
}

#[test]
fn bypass_writes_its_own_records() {
    let mut input = make_input();
    input.detail = "CREATE TABLE t (id INT)".to_string();
    input.emergency = true;
    input.allow_ddl = true;
    input.reason = Some("incident".to_string());
    let (d, t) = done(input, world());
    assert!(d.ddl_allowed);
    assert!(d.explain.is_none());
    assert!(d.context.is_none());
    assert_eq!(d.output.status, RequestStatus::Dispatched);
    assert_eq!(t.reasons, vec![DecisionReason::BreakGlass]);
    assert!(t.record_types.len() > 2);
}

#[test]
fn emergency_without_a_workflow_is_created() {
    let mut input = make_input();
    input.emergency = true;
    input.reason = Some("incident".to_string());
    let mut w = world();
    w.workflow = None;
    let (d, t) = done(input, w);
    assert_eq!(d.output.status, RequestStatus::Dispatched);
    assert_eq!(t.record_types.len(), 2);

    let mut w = world();
    w.workflow = None;
    let err = refused(make_input(), w);
    assert!(
        matches!(err, AppError::Validation(ref m) if m == "no workflow configured for app/production")
    );
}

fn stepped_workflow() -> Workflow {
    let mut wf = make_workflow();
    wf.steps = vec![WorkflowStep {
        approvers: vec![ApproverGroup { selector: Selector::Role("dba".to_string()), min: 1 }],
        mode: WorkflowStepMode::Any,
    }];
    wf
}

#[test]
fn pending_request_names_its_approvers_and_its_end() {
    let mut w = world();
    w.workflow = Some(stepped_workflow());
    w.ttl = Some(3600);
    let (d, t) = done(make_input(), w);
    assert_eq!(d.output.status, RequestStatus::Pending);
    assert_eq!(d.output.approvers, vec!["role:dba".to_string()]);
    assert_eq!(d.output.expires_at, Some(Timestamp { secs: 1_700_003_600, nanos: 0 }));
    assert_eq!(t.outcome, Outcome::NeedsApproval);
    assert_eq!(t.reasons, vec![DecisionReason::NoAutoApproveRule]);
    assert_eq!(t.record_types.len(), 1);
}

#[test]
fn rule_on_approval_shows_in_the_trace() {
    let entry = AutoApproveEntry {
        allow_read_only: false,
        allow_safe_ddl: false,
        max_estimated_rows: 10,
        max_risk_level: None,
    };
    let mut w = world();
    w.workflow = Some(stepped_workflow());
    w.entry = Some(entry);
    let (_, t) = done(make_input(), w);
    assert_eq!(t.reasons, vec![DecisionReason::AutoApproveDisabled]);

    let mut w = world();
    w.workflow = Some(stepped_workflow());
    w.entry = Some(AutoApproveEntry { max_risk_level: Some(RiskLevel::Low), ..entry });
    let (_, t) = done(make_input(), w);
    assert_eq!(t.reasons, vec![DecisionReason::RiskAboveThreshold]);
}

#[test]
fn one_explain_job_for_each_statement() {
    let (d, _) = done(make_input(), world());
    let ids = vec!["j1".to_string()];
    let jobs = d.jobs(&ids);
    assert_eq!(jobs.len(), 1);
    assert_eq!(jobs[0].id, "j1");
    assert_eq!(jobs[0].sql_text, "SELECT 1");
    assert_eq!(jobs[0].status, "pending");
    assert_eq!(jobs[0].created_at, "2023-11-14T22:13:20+00:00");
    match &d.context {
        Some(c) => {
            assert_eq!(c.status, "collecting");
            assert_eq!(c.created_at, "2023-11-14T22:13:20+00:00");
        },
        None => panic!("no context"),
    }
}

#[test]
fn unstored_request_has_no_context() {
    let mut input = make_input();
    input.no_result_store = true;
    let (d, _) = done(input, world());
    assert!(d.context.is_none());
    assert!(d.explain.is_none());
}

#[test]
fn repeated_key_answers_with_the_stored_request() {
    let mut input = make_input();
    input.idempotency_key = Some("k1".to_string());
    let mut w = world();
    w.existing = Some(stored(Some(SELECT_ONE)));
    match run(input, w) {
        Ok(End::Existing(o)) => {
            assert_eq!(o.id, "old-1");
            assert_eq!(o.status, RequestStatus::Executed);
            assert!(o.is_existing);
        },
        _ => panic!("not the stored request"),
    }

    let mut input = make_input();
    input.idempotency_key = Some("k1".to_string());
    let mut w = world();
    w.existing = Some(stored(Some("0000")));
    let err = refused(input, w);
    assert!(
        matches!(err, AppError::Conflict(ref m) if m == "idempotency key conflict: same key used with different SQL")
    );
}

#[test]
fn fingerprint_is_the_digest_of_the_statement() {
    let mut input = make_input();
    input.idempotency_key = Some("k1".to_string());
    let (_, t) = done(input, world());
    assert_eq!(t.fingerprint, Some(SELECT_ONE.to_string()));
    let (_, t) = done(make_input(), world());
    assert_eq!(t.fingerprint, None);
}

#[test]
fn lost_race_is_looked_up_again() {
    let mut input = make_input();
    input.idempotency_key = Some("k1".to_string());
    let mut w = world();
    w.outcome = Err(AppError::Conflict("UNIQUE constraint failed".to_string()));
    let err = refused(input, w);
    assert!(matches!(err, AppError::Conflict(ref m) if m == "idempotency_key"));

    let mut w = world();
    w.outcome = Err(AppError::Internal("disk".to_string()));
    assert!(matches!(refused(make_input(), w), AppError::Internal(ref m) if m == "disk"));
}

#[test]
fn blocking_finding_stops_a_submission() {
    let mut w = world();
    w.blocked = vec![Finding {
        rule: "no-where".to_string(),
        message: "DELETE without WHERE".to_string(),
        action: RuleAction::Block,
        break_glass_bypassable: true,
    }];
    let mut input = make_input();
    input.detail = "DELETE FROM users".to_string();
    let err = refused(input, w);
    assert!(matches!(err, AppError::Validation(ref m) if m.contains("DELETE without WHERE")));
}

#[test]
fn denials_have_their_own_words() {
    let e = BreakGlassDenial::RequiresEmergency.into_app_error();
    assert!(matches!(e, AppError::Validation(ref m) if m == "--allow-ddl requires --emergency"));
    let e = BreakGlassDenial::NonBypassableStatement { reason: "GRANT".to_string() }.into_app_error();
    assert!(matches!(e, AppError::Validation(ref m) if m.contains("GRANT")));
}

#[test]
fn approvers_are_read_from_the_stored_workflow() {
    let mut req = stored(None);
    req.status = RequestStatus::Pending;
    req.workflow_snapshot_json = Some(
        "{\"steps\":[{\"approvers\":[{\"selector\":\"role:dba\",\"min\":1},{\"selector\":\"user:bob\",\"min\":1}]}]}"
            .to_string(),
    );
    let found = extract_approvers(&req);
    assert_eq!(found, vec!["role:dba".to_string(), "user:bob".to_string()]);
    req.status = RequestStatus::Executed;
    assert!(extract_approvers(&req).is_empty());
}

#[test]
fn emergency_asks_for_its_own_permission() {
    let uc = CreateRequest { default_approval_ttl_secs: None };
    let mut input = make_input();
    input.emergency = true;
    input.reason = Some("incident".to_string());
    let start = uc.execute(input, &make_user(), None).unwrap_or_else(|_| panic!("refused"));
    let s = match start.dialect(Some("mysql".to_string())) {
        OperationStep::Classify(s) => s,
        OperationStep::Explicit(_) => panic!("explicit"),
    };
    let reply = classify("SELECT 1");
    let reviewing = s.classified(reply).unwrap_or_else(|_| panic!("refused"));
    match reviewing.reviewed(None) {
        ReviewStep::Unparsed(s) => assert_eq!(s.permission(), Permission::RequestBreakGlass),
        _ => panic!("parsed"),
    }
}
