use dbward_app::domain::{
    AuthUser, Permission, RoleDefinition, SubjectType,
};
use dbward_app::error::{AppError, AuthzError};
use dbward_app::time::Timestamp;
use dbward_app::use_cases::policy_manage::{CreateWorkflowInput, PolicyManage};

const NOW: Timestamp = Timestamp { secs: 1_700_000_000, nanos: 0 };

fn admin_user() -> AuthUser {
    AuthUser {
        subject_id: "admin".to_string(),
        subject_type: SubjectType::User,
        roles: vec!["admin".to_string()],
        groups: vec![],
        token_id: None,
    }
}

fn denied(permission: Permission) -> Result<(), AuthzError> {
    Err(AuthzError::Forbidden { permission, reason: "denied".to_string() })
}

fn make_input() -> CreateWorkflowInput {
    CreateWorkflowInput {
        database: "*".to_string(),
        environment: "*".to_string(),
        operations: vec![],
        steps: vec![],
        require_reason: false,
    }
}

fn role(name: &str) -> RoleDefinition {
    RoleDefinition {
        name: name.to_string(),
        permissions: vec![],
        databases: vec![],
        environments: vec![],
    }
}

#[test]
fn create_workflow_denied_without_permission() {
    let gate = PolicyManage {}.create_workflow(make_input(), &admin_user());
    let reply = denied(gate.permission);
    assert!(matches!(gate.authorized(reply), Err(AppError::Forbidden(_))));
}

#[test]
fn create_workflow_at_limit_returns_plan_limit() {
    let creation = PolicyManage {}
        .create_workflow(make_input(), &admin_user())
        .authorized(Ok(()))
        .unwrap_or_else(|_| panic!("refused"));
    assert!(matches!(creation.counted(5, 5), Err(AppError::PlanLimit(_))));
}

#[test]
fn create_role_rejects_builtin_name() {
    let creation = PolicyManage {}
        .create_role(role("admin"), &admin_user())
        .authorized(Ok(()))
        .unwrap_or_else(|_| panic!("refused"));
    assert!(matches!(creation.named(), Err(AppError::Validation(_))));
}

#[test]
fn delete_role_rejects_builtin_name() {
    let deletion = PolicyManage {}
        .delete_role("agent-default")
        .authorized(Ok(()))
        .unwrap_or_else(|_| panic!("refused"));
    assert!(matches!(deletion.named(), Err(AppError::Validation(_))));
}

#[test]
fn workflow_below_the_limit_is_built() {
    let stored = PolicyManage {}
        .create_workflow(make_input(), &admin_user())
        .authorized(Ok(()))
        .and_then(|c| c.counted(4, 5))
        .unwrap_or_else(|_| panic!("refused"))
        .build(NOW, "test-id");
    assert!(stored.workflow.id.contains("test-id"));
    assert_eq!(stored.workflow.database, "*");
    assert_eq!(stored.workflow.created_at, Some(NOW));
    let record = stored.record(NOW);
    assert_eq!(record.actor_id, "admin");
    assert_eq!(record.resource_id, Some(stored.workflow.id.clone()));
}

#[test]
fn custom_role_is_counted_and_deleted() {
    let uc = PolicyManage {};
    let counting = uc
        .create_role(role("dba"), &admin_user())
        .authorized(Ok(()))
        .and_then(|c| c.named())
        .unwrap_or_else(|_| panic!("refused"));
    assert!(matches!(counting.counted(8, 8), Err(AppError::PlanLimit(_))));
    let deleting = uc
        .delete_role("dba")
        .authorized(Ok(()))
        .and_then(|d| d.named())
        .unwrap_or_else(|_| panic!("refused"));
    assert!(matches!(deleting.deleted(false), Err(AppError::NotFound(_))));
}

#[test]
fn deleting_an_unknown_workflow_fails() {
    let deletion = PolicyManage {}
        .delete_workflow("wf-1", &admin_user())
        .authorized(Ok(()))
        .unwrap_or_else(|_| panic!("refused"));
    assert!(matches!(deletion.deleted(false), Err(AppError::NotFound(_))));
}

#[test]
fn each_operation_has_its_permission() {
    let uc = PolicyManage {};
    assert_eq!(uc.list_workflows().permission, Permission::WorkflowManage);
    assert_eq!(uc.list_execution_policies().permission, Permission::PolicyManage);
    assert_eq!(uc.list_roles().permission, Permission::RoleManage);
    assert_eq!(uc.delete_execution_policy("ep-1").permission, Permission::PolicyManage);
}
