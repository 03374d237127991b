use dbward_app::domain::{
    Agent, AgentStatus, ApproverGroup, AuthUser, AutoApproveMode, AutoApproveSettings,
    DatabaseCapability, Operation, Permission, Selector, SubjectType, Workflow, WorkflowStep,
    WorkflowStepMode,
};
use dbward_app::error::AppError;
use dbward_app::time::Timestamp;
use dbward_app::use_cases::create_request::{ClassifyError, RiskAssessment, RuleAction};
use dbward_app::use_cases::decision_trace::{Outcome, RiskLevel, SchemaStatus};
use dbward_app::use_cases::preflight::{
    blocked_result, build_next_actions, has_eligible_agent, ImpactStatus, PreflightDecision,
    PreflightEnd, PreflightInput, PreflightPlan, PreflightReplies, PreflightRegistry,
    PreflightStatus, PreflightStep, PreflightUseCase, ReviewFinding, ReviewOutcome,
    StatementClass,
};
use dbward_app::use_cases::risk_analysis::{TableRef, TableRiskInfo};

const NOW: Timestamp = Timestamp { secs: 1_700_000_000, nanos: 0 };

fn make_user() -> AuthUser {
    AuthUser {
        subject_id: "alice".to_string(),
        subject_type: SubjectType::User,
        roles: vec![],
        groups: vec![],
        token_id: None,
    }
}

fn make_workflow() -> Workflow {
    Workflow {
        id: "wf-1".to_string(),
        database: "app".to_string(),
        environment: "production".to_string(),
        operations: vec![],
        auto_approve: None,
        steps: vec![WorkflowStep {
            approvers: vec![ApproverGroup { selector: Selector::Role("dba".to_string()), min: 1 }],
            mode: WorkflowStepMode::Any,
        }],
        require_reason: false,
        allow_self_approve: false,
        allow_same_approver_across_steps: true,
        explain: true,
        pending_ttl_secs: None,
        statement_timeout_secs: None,
        approval_ttl_secs: None,
        created_at: None,
        updated_at: None,
    }
}

fn make_input(sql: &str) -> PreflightInput {
    PreflightInput {
        database: "app".to_string(),
        environment: "production".to_string(),
        sql: sql.to_string(),
        operation_override: None,
        include_explain: true,
        explain_timeout_ms: 5000,
    }
}

fn registry(input: PreflightInput) -> PreflightRegistry {
    PreflightUseCase { max_sql_length: 100 }
        .execute(&make_user(), input)
        .and_then(|s| s.authorized(Ok(()), true))
        .unwrap_or_else(|_| panic!("refused"))
}

fn class() -> StatementClass {
    StatementClass {
        operation: Operation::ExecuteDml,
        read_only: false,
        is_ddl_only: false,
        statement_count: 1,
    }
}

fn finding(rule: &str, action: RuleAction) -> ReviewFinding {
    ReviewFinding {
        rule: rule.to_string(),
        action,
        message: "look again".to_string(),
        statement_index: 0,
    }
}

fn info(rows: i64) -> TableRiskInfo {
    TableRiskInfo {
        name: "users".to_string(),
        estimated_rows: rows,
        has_cascade_fk: false,
        cascade_targets: vec![],
        cascade_children: vec![],
        cascade_children_truncated: false,
    }
}

fn decision(workflow: Workflow, findings: Vec<ReviewFinding>, blocked: bool) -> PreflightDecision {
    let classify = registry(make_input("DELETE FROM users"))
        .registered(true)
        .unwrap_or_else(|_| panic!("refused"))
        .dialect(None);
    let step = classify.classified(Ok(class())).unwrap_or_else(|_| panic!("refused"));
    let reviewing = match step {
        PreflightStep::Next(s) => match s.workflow(Some(workflow)) {
            PreflightStep::Next(s) => s,
            PreflightStep::Answer(_) => panic!("answered"),
        },
        PreflightStep::Answer(_) => panic!("answered"),
    };
    let tables = reviewing.reviewed(
        ReviewOutcome { findings, blocked },
        vec![TableRef { schema: None, name: "users".to_string() }],
    );
    assert!(tables.needs_tables());
    let risk = tables.resolved(vec![info(10), info(70), info(30)]);
    assert_eq!(risk.risk_input.max_estimated_rows, 70);
    assert_eq!(risk.risk_input.schema_status, SchemaStatus::Ready);
    assert!(risk.risk_input.has_dml);
    risk.assessed(RiskAssessment {
        level: RiskLevel::High,
        factors: vec!["LargeTable".to_string()],
    })
}

fn replies(above: bool, can_submit: bool) -> PreflightReplies {
    PreflightReplies {
        outcome: Outcome::NeedsApproval,
        above_threshold: above,
        can_submit,
        can_break_glass: false,
        hints: vec![],
    }
}

fn status(plan: &PreflightPlan) -> PreflightStatus {
    plan.result.status
}

#[test]
fn clean_statement_can_be_requested() {
    let d = decision(make_workflow(), vec![], false);
    assert_eq!(d.submit_permission(), Permission::RequestExecute);
    let plan = d.decided(replies(true, true));
    assert_eq!(status(&plan), PreflightStatus::Requestable);
    assert!(plan.result.policy.requires_approval);
    assert_eq!(plan.result.policy.approvers[0].selector, "role:dba");
    assert_eq!(plan.result.policy.workflow_id, Some("wf-1".to_string()));
    assert_eq!(plan.result.classification.operation, "execute_dml");
    assert_eq!(plan.result.classification.statement_type, "ExecuteDml");
    assert!(plan.result.classification.mutating);
    assert!(plan.result.next_actions.is_empty());
}

#[test]
fn risk_above_the_threshold_warns() {
    let mut wf = make_workflow();
    wf.auto_approve = Some(AutoApproveSettings {
        mode: AutoApproveMode::RiskBased,
        max_risk_level: Some(RiskLevel::Low),
        allow_read_only: false,
        allow_safe_ddl: false,
        max_estimated_rows: 100,
    });
    let plan = decision(wf, vec![], false).decided(replies(true, true));
    assert_eq!(status(&plan), PreflightStatus::Warning);
    assert_eq!(
        plan.result.next_actions,
        vec!["Review warnings before submitting the request".to_string()]
    );
}

#[test]
fn blocked_review_blocks() {
    let plan = decision(
        make_workflow(),
        vec![finding("NoWhereDelete", RuleAction::Block)],
        true,
    )
    .decided(replies(false, true));
    assert_eq!(status(&plan), PreflightStatus::Blocked);
    assert_eq!(plan.result.review.findings[0].code, "nowheredelete");
    assert_eq!(
        plan.result.next_actions,
        vec!["Run preflight again with a narrower WHERE clause".to_string()]
    );
}

#[test]
fn caller_who_may_not_submit_is_blocked() {
    let plan = decision(make_workflow(), vec![], false).decided(replies(false, false));
    assert_eq!(status(&plan), PreflightStatus::Blocked);
    assert!(!plan.result.policy.caller_can_submit);
}

#[test]
fn warning_finding_warns() {
    let plan = decision(make_workflow(), vec![finding("LargeInList", RuleAction::Warn)], false)
        .decided(replies(false, true));
    assert_eq!(status(&plan), PreflightStatus::Warning);
}

#[test]
fn rejected_statement_is_answered_as_blocked() {
    let classify = registry(make_input("GRANT ALL"))
        .registered(true)
        .unwrap_or_else(|_| panic!("refused"))
        .dialect(Some("mysql".to_string()));
    let reply = Err(ClassifyError::Rejected { reason: "GRANT".to_string() });
    match classify.classified(reply) {
        Ok(PreflightStep::Answer(a)) => {
            assert_eq!(a.status, PreflightStatus::Blocked);
            assert!(!a.policy.sql_valid);
        },
        _ => panic!("not answered"),
    }
    assert_eq!(blocked_result("x").status, PreflightStatus::Blocked);
}

#[test]
fn statement_length_is_limited() {
    let uc = PreflightUseCase { max_sql_length: 10 };
    let r = uc.execute(&make_user(), make_input("SELECT 12345"));
    assert!(r.is_err());
    assert!(uc.execute(&make_user(), make_input("SELECT 123")).is_ok());
}

#[test]
fn unknown_database_is_refused() {
    let r = registry(make_input("SELECT 1")).registered(false);
    assert!(r.is_err());
}

#[test]
fn override_must_agree() {
    let mut input = make_input("DELETE FROM users");
    input.operation_override = Some("execute_select".to_string());
    let classify = registry(input)
        .registered(true)
        .unwrap_or_else(|_| panic!("refused"))
        .dialect(None);
    match classify.classified(Ok(class())) {
        Err(AppError::Validation(m)) => assert_eq!(
            m,
            "operation override 'execute_select' disagrees with classified 'execute_dml'"
        ),
        _ => panic!("accepted"),
    }
}

#[test]
fn advice_names_both_remedies() {
    let both = vec![
        finding("NoWhereUpdate", RuleAction::Block),
        finding("LargeInList", RuleAction::Block),
    ];
    assert_eq!(build_next_actions(PreflightStatus::Blocked, &both).len(), 2);
    assert_eq!(
        build_next_actions(PreflightStatus::Blocked, &vec![]),
        vec!["Fix the blocking issues and run preflight again".to_string()]
    );
}

fn agent(database: &str, status: AgentStatus) -> Agent {
    Agent {
        id: "agent-1".to_string(),
        token_id: "tok-1".to_string(),
        databases: vec![DatabaseCapability {
            database: database.to_string(),
            environment: "production".to_string(),
        }],
        status,
        max_concurrent: 4,
        in_flight: 0,
        uptime_secs: 1,
        active_jobs: vec![],
        lease_duration_secs: None,
        last_seen: Some(NOW),
        created_at: NOW,
    }
}

#[test]
fn agent_must_be_healthy_and_capable() {
    let here = vec![agent("app", AgentStatus::Active)];
    assert!(has_eligible_agent(&here, &vec![true], "app", "production"));
    assert!(!has_eligible_agent(&here, &vec![false], "app", "production"));
    let elsewhere = vec![agent("other", AgentStatus::Active)];
    assert!(!has_eligible_agent(&elsewhere, &vec![true], "app", "production"));
}

#[test]
fn explain_job_is_for_this_statement() {
    let plan = decision(make_workflow(), vec![], false).decided(replies(false, true));
    assert!(plan.needs_agents());
    match plan.agents(true) {
        PreflightEnd::Explain(due) => {
            let (_, job) = due.identified("job-1".to_string());
            assert_eq!(job.job_id, "job-1");
            assert_eq!(job.sql, "DELETE FROM users");
            assert_eq!(job.user_id, "alice");
            assert_eq!(job.timeout_ms, 5000);
        },
        PreflightEnd::Done(_) => panic!("no job"),
    }
    let plan = decision(make_workflow(), vec![], false).decided(replies(false, true));
    match plan.agents(false) {
        PreflightEnd::Done(r) => assert_eq!(r.impact.status, ImpactStatus::NotAvailable),
        PreflightEnd::Explain(_) => panic!("job without an agent"),
    }
}
