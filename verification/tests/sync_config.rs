use dbward_app::domain::{
    DeliveryMode, ExecutionPolicy, Operation, Permission, Selector, UserStatus, WorkflowStepMode,
};
use dbward_app::error::AppError;
use dbward_app::time::Timestamp;
use dbward_app::use_cases::sync_config::{
    check_limit, database_entries, ApproverInput, DatabaseInput, ExecutionPolicyInput, Limited,
    NamePair, NotificationPolicyInput, ResultPolicyInput, ResultPolicyReplies, RoleBindingInput,
    RoleInput, RoleReplies, SyncConfig, SyncPart, SyncStep, UserInput, WebhookInput,
    WorkflowInput, WorkflowReplies, WorkflowStepInput,
};

const NOW: Timestamp = Timestamp { secs: 1_700_000_000, nanos: 0 };

fn make_policy() -> ExecutionPolicy {
    ExecutionPolicy {
        id: "ep-1".to_string(),
        database: "*".to_string(),
        environment: "*".to_string(),
        max_executions: 10,
        execution_window_secs: 86_400,
        retry_on_failure: true,
        statement_timeout_secs: 30,
        max_statement_timeout_secs: 300,
        max_rows: Some(1000),
        migration_lease_duration_secs: None,
        migration_statement_timeout_secs: None,
        created_at: None,
        updated_at: None,
    }
}

fn valid_workflow_input() -> WorkflowInput {
    WorkflowInput {
        database: "primary".to_string(),
        environment: "production".to_string(),
        operations: vec!["execute_select".to_string()],
        steps: vec![WorkflowStepInput {
            mode: "any".to_string(),
            approvers: vec![ApproverInput {
                selector_type: "role".to_string(),
                value: "admin".to_string(),
                min: 1,
            }],
        }],
        require_reason: false,
        allow_self_approve: false,
        allow_same_approver_across_steps: false,
        explain: true,
        pending_ttl_secs: None,
        statement_timeout_secs: None,
    }
}

fn name(text: &str) -> Result<String, String> {
    if text.is_empty() || text == "*" {
        Err("invalid name".to_string())
    } else {
        Ok(text.to_string())
    }
}

fn pair(database: &str, environment: &str) -> NamePair {
    NamePair { database: name(database), environment: name(environment) }
}

fn replies(wf: &WorkflowInput) -> WorkflowReplies {
    WorkflowReplies {
        names: pair(&wf.database, &wf.environment),
        operations: wf
            .operations
            .iter()
            .map(|op| {
                if op == "execute_select" {
                    Ok(Operation::ExecuteSelect)
                } else {
                    Err(format!("unknown operation: {op}"))
                }
            })
            .collect(),
    }
}

fn sync(wf: WorkflowInput) -> Result<usize, AppError> {
    let given = vec![replies(&wf)];
    SyncConfig {}.sync_workflows(&vec![wf], &given).map(|plan| plan.create.len())
}

fn validation(r: Result<usize, AppError>) -> String {
    match r {
        Err(AppError::Validation(msg)) => msg,
        _ => panic!("expected Validation"),
    }
}

#[test]
fn sync_workflows_valid_conversion() {
    let wf = valid_workflow_input();
    let given = vec![replies(&wf)];
    let plan = SyncConfig {}
        .sync_workflows(&vec![wf], &given)
        .unwrap_or_else(|_| panic!("refused"));
    assert_eq!(plan.create.len(), 1);
    assert_eq!(plan.create[0].database, "primary");
    assert_eq!(plan.create[0].operations, vec![Operation::ExecuteSelect]);
    assert!(plan.create[0].steps[0].mode == WorkflowStepMode::Any);
    assert!(matches!(&plan.create[0].steps[0].approvers[0].selector, Selector::Role(r) if r == "admin"));
    assert_eq!(plan.legacy_ids.len(), 100);
}

#[test]
fn sync_workflows_invalid_mode_returns_err() {
    let mut wf = valid_workflow_input();
    wf.steps[0].mode = "invalid".to_string();
    assert!(validation(sync(wf)).contains("unknown mode 'invalid'"));
}

#[test]
fn sync_workflows_invalid_selector_type_returns_err() {
    let mut wf = valid_workflow_input();
    wf.steps[0].approvers[0].selector_type = "invalid".to_string();
    assert!(validation(sync(wf)).contains("unknown selector_type 'invalid'"));
}

#[test]
fn sync_webhooks_invalid_format_returns_err() {
    let wh = WebhookInput {
        id: "test-hook".to_string(),
        url: "https://example.com".to_string(),
        events: vec!["request_created".to_string()],
        format: "invalid".to_string(),
        secret: None,
    };
    let r = SyncConfig {}.sync_webhooks(&vec![wh], &vec![Ok(())], NOW).map(|p| p.create.len());
    assert!(validation(r).contains("unknown format 'invalid'"));
}

#[test]
fn sync_workflows_invalid_operation_returns_err() {
    let mut wf = valid_workflow_input();
    wf.operations = vec!["invalid_op".to_string()];
    assert!(validation(sync(wf)).contains("invalid_op"));
}

#[test]
fn sync_workflows_wildcard_db_env() {
    let mut wf = valid_workflow_input();
    wf.database = "*".to_string();
    wf.environment = "*".to_string();
    assert!(sync(wf).is_ok());
}

#[test]
fn one_bad_workflow_refuses_the_list() {
    let good = valid_workflow_input();
    let mut bad = valid_workflow_input();
    bad.steps[0].mode = "invalid".to_string();
    let given = vec![replies(&good), replies(&bad)];
    let r = SyncConfig {}.sync_workflows(&vec![good, bad], &given);
    assert!(matches!(r, Err(AppError::Validation(_))));
}

#[test]
fn unreachable_webhook_is_refused() {
    let wh = WebhookInput {
        id: "test-hook".to_string(),
        url: "http://10.0.0.1".to_string(),
        events: vec![],
        format: "slack".to_string(),
        secret: None,
    };
    let r = SyncConfig {}.sync_webhooks(&vec![wh], &vec![Err("private".to_string())], NOW);
    assert!(matches!(r, Err(AppError::Validation(_))));
}

#[test]
fn databases_are_listed_by_environment() {
    let inputs = vec![DatabaseInput {
        name: "app".to_string(),
        environments: vec!["production".to_string(), "staging".to_string()],
    }];
    let entries = database_entries(&inputs);
    assert_eq!(entries.len(), 2);
    assert_eq!(entries[1].name, "app");
    assert_eq!(entries[1].environment, "staging");
    let plan = SyncConfig {}.sync_databases(&vec![pair("app", "production"), pair("", "staging")]);
    assert_eq!(plan.register.len(), 1);
    assert!(plan.failure.is_some());
}

#[test]
fn limits_count_what_is_there() {
    assert!(check_limit(Limited::Workflow, 5, 5).is_ok());
    assert!(matches!(
        check_limit(Limited::Workflow, 6, 5),
        Err(AppError::Validation(m)) if m == "workflow limit exceeded (max 5, have 6)"
    ));
}

const PARTS: [SyncPart; 10] = [
    SyncPart::Databases,
    SyncPart::Users,
    SyncPart::Groups,
    SyncPart::Roles,
    SyncPart::RoleBindings,
    SyncPart::Webhooks,
    SyncPart::Workflows,
    SyncPart::ExecutionPolicies,
    SyncPart::ResultPolicies,
    SyncPart::NotificationPolicies,
];

fn internal(text: &str) -> AppError {
    AppError::Internal(text.to_string())
}

/// Runs the parts; the one at `bad` fails, and `over` is over its limit.
fn run_sync(bad: Option<usize>, over: Option<Limited>) -> (Vec<SyncPart>, Vec<Limited>, SyncStep) {
    let mut seen = vec![];
    let mut counted = vec![];
    let mut step = match (SyncConfig {}).sync_all(Ok(())) {
        Ok(s) => SyncStep::Part(s),
        Err(_) => panic!("refused"),
    };
    loop {
        step = match step {
            SyncStep::Part(s) => {
                let k = seen.len();
                seen.push(s.part);
                if bad == Some(k) {
                    s.taken(Err(internal("part")))
                } else {
                    s.taken(Ok((k as u64, 100 + k as u64)))
                }
            },
            SyncStep::Limit(s) => {
                let what = s.what;
                counted.push(what);
                s.counted(Ok(if over == Some(what) { 6 } else { 5 }), 5)
            },
            end => return (seen, counted, end),
        };
    }
}

#[test]
fn parts_are_taken_over_in_dependency_order() {
    let (seen, counted, end) = run_sync(None, None);
    assert_eq!(seen, PARTS.to_vec());
    assert_eq!(
        counted,
        vec![Limited::Database, Limited::Role, Limited::Webhook, Limited::Workflow]
    );
    match end {
        SyncStep::Commit(s) => {
            assert_eq!(s.summary.databases, (0, 100));
            assert_eq!(s.summary.users, (1, 101));
            assert_eq!(s.summary.groups, (2, 102));
            assert_eq!(s.summary.roles, (3, 103));
            assert_eq!(s.summary.role_bindings, (4, 104));
            assert_eq!(s.summary.webhooks, (5, 105));
            assert_eq!(s.summary.workflows, (6, 106));
            assert_eq!(s.summary.execution_policies, (7, 107));
            assert_eq!(s.summary.result_policies, (8, 108));
            assert_eq!(s.summary.notification_policies, (9, 109));
        },
        _ => panic!("not committed"),
    }
}

#[test]
fn failed_sync_is_rolled_back() {
    for k in 0..10 {
        let (seen, _, end) = run_sync(Some(k), None);
        assert_eq!(seen, PARTS[..=k].to_vec());
        match end {
            SyncStep::Rollback(s) => {
                let told = s.rolled_back(Err(internal("rollback")));
                assert!(matches!(told, AppError::Internal(m) if m == "part"));
            },
            _ => panic!("not rolled back"),
        }
    }
}

#[test]
fn exceeded_limits_roll_the_sync_back() {
    let cases = [
        (Limited::Database, 1, "database"),
        (Limited::Role, 4, "role"),
        (Limited::Webhook, 6, "webhook"),
        (Limited::Workflow, 7, "workflow"),
    ];
    for (what, parts, name) in cases {
        let (seen, _, end) = run_sync(None, Some(what));
        assert_eq!(seen.len(), parts);
        match end {
            SyncStep::Rollback(s) => {
                let told = s.rolled_back(Ok(()));
                let text = format!("{name} limit exceeded (max 5, have 6)");
                assert!(matches!(told, AppError::Validation(m) if m == text));
            },
            _ => panic!("not rolled back"),
        }
    }
}

#[test]
fn uncounted_records_roll_the_sync_back() {
    let first = match (SyncConfig {}).sync_all(Ok(())) {
        Ok(s) => s.taken(Ok((0, 0))),
        Err(_) => panic!("refused"),
    };
    let end = match first {
        SyncStep::Limit(s) => s.counted(Err(internal("count")), 5),
        _ => panic!("not limited"),
    };
    assert!(matches!(end, SyncStep::Rollback(s) if matches!(s.error, AppError::Internal(_))));
}

#[test]
fn a_transaction_that_does_not_begin_takes_nothing_over() {
    let r = SyncConfig {}.sync_all(Err(internal("begin")));
    assert!(matches!(r, Err(AppError::Internal(m)) if m == "begin"));
}

#[test]
fn only_a_commit_is_followed_by_a_reload() {
    let commit = || match run_sync(None, None).2 {
        SyncStep::Commit(s) => s,
        _ => panic!("not committed"),
    };
    let r = commit().committed(Err(internal("commit")));
    assert!(matches!(r, Err(AppError::Internal(m)) if m == "commit"));
    match commit().committed(Ok(())) {
        Ok(reload) => {
            let summary = reload.reloaded(Err(internal("reload")));
            assert_eq!(summary.workflows, (6, 106));
        },
        Err(_) => panic!("not committed"),
    }
}

#[test]
fn users_keep_their_status() {
    let users = vec![
        UserInput { id: "alice".to_string(), status: "active".to_string() },
        UserInput { id: "bob".to_string(), status: "suspended".to_string() },
    ];
    let made = SyncConfig {}.sync_users(&users, NOW);
    assert_eq!(made.len(), 2);
    assert!(made[0].status == UserStatus::Active);
    assert!(made[1].status == UserStatus::Suspended);
    assert_eq!(made[1].created_at, NOW);
}

#[test]
fn roles_before_a_bad_one_are_created() {
    let role = |n: &str| RoleInput {
        name: n.to_string(),
        permissions: vec!["request.view".to_string()],
        databases: vec!["app".to_string()],
        environments: vec!["*".to_string()],
    };
    let reply = |ok: bool| RoleReplies {
        permissions: vec![if ok {
            Ok(Permission::RequestView)
        } else {
            Err("unknown permission".to_string())
        }],
        databases: vec![name("app")],
        environments: vec![name("*")],
    };
    let plan = SyncConfig {}
        .sync_roles(&vec![role("first"), role("second")], &vec![reply(true), reply(false)]);
    assert_eq!(plan.create.len(), 1);
    assert_eq!(plan.create[0].name, "first");
    assert!(plan.failure.is_some());
}

#[test]
fn bindings_are_numbered() {
    let made = SyncConfig {}.sync_role_bindings(&vec![RoleBindingInput {
        role: "dba".to_string(),
        subjects: vec!["alice".to_string()],
        groups: vec![],
    }]);
    assert_eq!(made.len(), 1);
    assert_eq!(made[0].role, "dba");
    assert!(made[0].id.contains('0'));
}

#[test]
fn execution_policy_falls_back_to_defaults() {
    let input = ExecutionPolicyInput {
        database: "app".to_string(),
        environment: "production".to_string(),
        max_executions: Some(2),
        execution_window_secs: None,
        retry_on_failure: None,
        statement_timeout_secs: None,
        max_statement_timeout_secs: None,
        max_rows: None,
        migration_lease_duration_secs: None,
        migration_statement_timeout_secs: None,
    };
    let drafts = SyncConfig {}
        .sync_execution_policies(&vec![input], &vec![pair("app", "production")], &make_policy())
        .unwrap_or_else(|_| panic!("refused"));
    assert_eq!(drafts.policies[0].max_executions, 2);
    assert_eq!(drafts.policies[0].execution_window_secs, 86_400);
    assert!(drafts.policies[0].retry_on_failure);
    let r = drafts.checked(&vec![Err("bad".to_string())]);
    assert!(matches!(r, Err(AppError::Validation(_))));
}

#[test]
fn unknown_mode_delivers_both_ways() {
    let input = |mode: &str| ResultPolicyInput {
        database: "app".to_string(),
        environment: "production".to_string(),
        retention_days: 7,
        delivery_mode: mode.to_string(),
        access: vec!["role:dba".to_string()],
    };
    let reply = || ResultPolicyReplies {
        names: pair("app", "production"),
        access: vec![Ok(Selector::Role("dba".to_string()))],
    };
    let made = SyncConfig {}
        .sync_result_policies(&vec![input("store_only")], &vec![reply()])
        .unwrap_or_else(|_| panic!("refused"));
    assert_eq!(made[0].retention_days, 7);
    assert_eq!(made[0].delivery_mode, DeliveryMode::StoreOnly);
    let made = SyncConfig {}
        .sync_result_policies(&vec![input("pigeon")], &vec![reply()])
        .unwrap_or_else(|_| panic!("refused"));
    assert_eq!(made[0].delivery_mode, DeliveryMode::Both);
    let mut bad = reply();
    bad.access = vec![Err("bad selector".to_string())];
    let r = SyncConfig {}.sync_result_policies(&vec![input("stream")], &vec![bad]);
    assert!(matches!(r, Err(AppError::Validation(_))));
}

#[test]
fn notification_policy_keeps_its_webhooks() {
    let input = NotificationPolicyInput {
        database: "*".to_string(),
        environment: "production".to_string(),
        webhooks: vec!["hook".to_string()],
        events: vec!["request_created".to_string()],
    };
    let made = SyncConfig {}
        .sync_notification_policies(&vec![input], &vec![pair("*", "production")])
        .unwrap_or_else(|_| panic!("refused"));
    assert_eq!(made[0].webhooks, vec!["hook".to_string()]);
    assert_eq!(made[0].database, "*");
}

#[test]
fn step_without_approvers_is_refused() {
    let mut wf = valid_workflow_input();
    wf.steps[0].approvers = vec![];
    validation(sync(wf));
}
