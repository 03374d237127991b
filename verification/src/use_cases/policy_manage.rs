//! Managing workflows, execution policies and roles.

use vstd::prelude::*;

use crate::domain::{
    AuditEvent, AuthUser, ExecutionPolicy, Operation, Permission, RoleDefinition, Workflow,
    WorkflowStep,
};
use crate::error::{AppError, ErrorView};
use crate::text::{concat2, same_text};
use crate::time::Timestamp;
use crate::use_cases::gate::Gate;

verus! {

/// How many execution policies there may be.
pub const MAX_EXECUTION_POLICIES: u32 = 3;

/// The use case.
pub struct PolicyManage {}

/// A workflow to be created.
pub struct CreateWorkflowInput {
    pub database: String,
    pub environment: String,
    pub operations: Vec<Operation>,
    pub steps: Vec<WorkflowStep>,
    pub require_reason: bool,
}

/// Due: how many workflows there are, and how many the licence allows.
pub struct WorkflowCreation {
    pub input: CreateWorkflowInput,
    pub actor_id: String,
}

/// Due: the current time and a fresh identifier.
pub struct WorkflowDraft {
    pub input: CreateWorkflowInput,
    pub actor_id: String,
}

/// Due: store the workflow, then its record at the current time.
pub struct WorkflowStored {
    pub workflow: Workflow,
    pub actor_id: String,
}

/// Due: list what there is.
pub struct Listing {}

/// Due: how many execution policies there are.
pub struct ExecutionPolicyCreation {
    pub policy: ExecutionPolicy,
    pub actor_id: String,
}

/// Due: store the execution policy, then its record at the current time.
pub struct ExecutionPolicyStored {
    pub policy: ExecutionPolicy,
    pub actor_id: String,
}

/// A role that a permitted caller wants to create.
pub struct RoleCreation {
    pub role: RoleDefinition,
    pub actor_id: String,
}

/// Due: how many roles there are, and how many the licence allows.
pub struct RoleCounting {
    pub role: RoleDefinition,
    pub actor_id: String,
}

/// Due: store the role, then its record at the current time.
pub struct RoleStored {
    pub role: RoleDefinition,
    pub actor_id: String,
}

/// Due: delete the workflow.
pub struct WorkflowDeletion {
    pub id: String,
    pub actor_id: String,
}

/// Due: record the deletion at the current time.
pub struct WorkflowDeleted {
    pub id: String,
    pub actor_id: String,
}

/// Due: delete the execution policy.
pub struct ExecutionPolicyDeletion {
    pub id: String,
}

/// A role that a permitted caller wants to delete.
pub struct RoleDeletion {
    pub name: String,
}

/// Due: delete the role.
pub struct RoleDeleting {
    pub name: String,
}

impl PolicyManage {
    /// Starts the creation of a workflow.
    pub fn create_workflow(&self, input: CreateWorkflowInput, user: &AuthUser) -> (r: Gate<
        WorkflowCreation,
    >)
        ensures
            r.permission == Permission::WorkflowManage,
            r.next.input == input,
            r.next.actor_id == user.subject_id,
    {
        Gate {
            permission: Permission::WorkflowManage,
            next: WorkflowCreation { input, actor_id: user.subject_id.clone() },
        }
    }

    /// Starts a list of the workflows.
    pub fn list_workflows(&self) -> (r: Gate<Listing>)
        ensures
            r.permission == Permission::WorkflowManage,
    {
        Gate { permission: Permission::WorkflowManage, next: Listing {  } }
    }

    /// Starts the deletion of a workflow.
    pub fn delete_workflow(&self, id: &str, user: &AuthUser) -> (r: Gate<WorkflowDeletion>)
        ensures
            r.permission == Permission::WorkflowManage,
            r.next.id@ == id@,
            r.next.actor_id == user.subject_id,
    {
        Gate {
            permission: Permission::WorkflowManage,
            next: WorkflowDeletion { id: id.to_string(), actor_id: user.subject_id.clone() },
        }
    }

    /// Starts the creation of an execution policy.
    pub fn create_execution_policy(&self, policy: ExecutionPolicy, user: &AuthUser) -> (r: Gate<
        ExecutionPolicyCreation,
    >)
        ensures
            r.permission == Permission::PolicyManage,
            r.next.policy == policy,
            r.next.actor_id == user.subject_id,
    {
        Gate {
            permission: Permission::PolicyManage,
            next: ExecutionPolicyCreation { policy, actor_id: user.subject_id.clone() },
        }
    }

    /// Starts a list of the execution policies.
    pub fn list_execution_policies(&self) -> (r: Gate<Listing>)
        ensures
            r.permission == Permission::PolicyManage,
    {
        Gate { permission: Permission::PolicyManage, next: Listing {  } }
    }

    /// Starts the deletion of an execution policy.
    pub fn delete_execution_policy(&self, id: &str) -> (r: Gate<ExecutionPolicyDeletion>)
        ensures
            r.permission == Permission::PolicyManage,
            r.next.id@ == id@,
    {
        Gate {
            permission: Permission::PolicyManage,
            next: ExecutionPolicyDeletion { id: id.to_string() },
        }
    }

    /// Starts the creation of a role.
    pub fn create_role(&self, role: RoleDefinition, user: &AuthUser) -> (r: Gate<RoleCreation>)
        ensures
            r.permission == Permission::RoleManage,
            r.next.role == role,
            r.next.actor_id == user.subject_id,
    {
        Gate {
            permission: Permission::RoleManage,
            next: RoleCreation { role, actor_id: user.subject_id.clone() },
        }
    }

    /// Starts a list of the roles.
    pub fn list_roles(&self) -> (r: Gate<Listing>)
        ensures
            r.permission == Permission::RoleManage,
    {
        Gate { permission: Permission::RoleManage, next: Listing {  } }
    }

    /// Starts the deletion of a role.
    pub fn delete_role(&self, name: &str) -> (r: Gate<RoleDeletion>)
        ensures
            r.permission == Permission::RoleManage,
            r.next.name@ == name@,
    {
        Gate { permission: Permission::RoleManage, next: RoleDeletion { name: name.to_string() } }
    }
}

impl WorkflowCreation {
    /// Takes how many workflows there are, and how many are allowed.
    pub fn counted(self, count: u32, max: u32) -> (r: Result<WorkflowDraft, AppError>)
        ensures
            if count >= max {
                r matches Err(e) && e@ == ErrorView::PlanLimit("workflow limit reached"@)
            } else {
                r matches Ok(s) && s.input == self.input && s.actor_id == self.actor_id
            },
    {
        if count >= max {
            return Err(AppError::PlanLimit("workflow limit reached".to_string()));
        }
        Ok(WorkflowDraft { input: self.input, actor_id: self.actor_id })
    }
}

/// Whether `w` is the workflow made of the input: nobody approves their own
/// request or twice, statements are explained, and no limit is set.
pub open spec fn new_workflow(w: Workflow, input: CreateWorkflowInput, id: Seq<char>, now: Timestamp) -> bool {
    &&& w.id@ == "wf-"@ + id
    &&& w.database == input.database
    &&& w.environment == input.environment
    &&& w.operations == input.operations
    &&& w.auto_approve is None
    &&& w.steps == input.steps
    &&& w.require_reason == input.require_reason
    &&& !w.allow_self_approve
    &&& !w.allow_same_approver_across_steps
    &&& w.explain
    &&& w.pending_ttl_secs is None
    &&& w.statement_timeout_secs is None
    &&& w.approval_ttl_secs is None
    &&& w.created_at == Some(now)
    &&& w.updated_at == Some(now)
}

impl WorkflowDraft {
    /// Takes the current time and the fresh identifier.
    pub fn build(self, now: Timestamp, id: &str) -> (r: WorkflowStored)
        ensures
            new_workflow(r.workflow, self.input, id@, now),
            r.actor_id == self.actor_id,
    {
        WorkflowStored {
            workflow: Workflow {
                id: concat2("wf-", id),
                database: self.input.database,
                environment: self.input.environment,
                operations: self.input.operations,
                auto_approve: None,
                steps: self.input.steps,
                require_reason: self.input.require_reason,
                allow_self_approve: false,
                allow_same_approver_across_steps: false,
                explain: true,
                pending_ttl_secs: None,
                statement_timeout_secs: None,
                approval_ttl_secs: None,
                created_at: Some(now),
                updated_at: Some(now),
            },
            actor_id: self.actor_id,
        }
    }
}

impl WorkflowStored {
    /// The record of the creation.
    pub fn record(&self, now: Timestamp) -> (r: AuditEvent)
        ensures
            r.is_simple("policy_created"@, "policy"@, self.actor_id@, Some(self.workflow.id@), now),
    {
        AuditEvent::simple(
            "policy_created",
            "policy",
            self.actor_id.as_str(),
            Some(self.workflow.id.clone()),
            now,
        )
    }
}

impl WorkflowDeletion {
    /// Takes whether there was such a workflow.
    pub fn deleted(self, deleted: bool) -> (r: Result<WorkflowDeleted, AppError>)
        ensures
            match r {
                Ok(s) => deleted && s.id == self.id && s.actor_id == self.actor_id,
                Err(e) => !deleted && e@ == ErrorView::NotFound("workflow not found"@),
            },
    {
        if !deleted {
            return Err(AppError::NotFound("workflow not found".to_string()));
        }
        Ok(WorkflowDeleted { id: self.id, actor_id: self.actor_id })
    }
}

impl WorkflowDeleted {
    /// The record of the deletion.
    pub fn record(&self, now: Timestamp) -> (r: AuditEvent)
        ensures
            r.is_simple("policy_deleted"@, "policy"@, self.actor_id@, Some(self.id@), now),
    {
        AuditEvent::simple(
            "policy_deleted",
            "policy",
            self.actor_id.as_str(),
            Some(self.id.clone()),
            now,
        )
    }
}

impl ExecutionPolicyCreation {
    /// Takes how many execution policies there are.
    pub fn counted(self, count: u32) -> (r: Result<ExecutionPolicyStored, AppError>)
        ensures
            if count >= MAX_EXECUTION_POLICIES {
                r matches Err(e) && e@ == ErrorView::PlanLimit("execution policy limit reached"@)
            } else {
                r matches Ok(s) && s.policy == self.policy && s.actor_id == self.actor_id
            },
    {
        if count >= MAX_EXECUTION_POLICIES {
            return Err(AppError::PlanLimit("execution policy limit reached".to_string()));
        }
        Ok(ExecutionPolicyStored { policy: self.policy, actor_id: self.actor_id })
    }
}

impl ExecutionPolicyStored {
    /// The record of the creation.
    pub fn record(&self, now: Timestamp) -> (r: AuditEvent)
        ensures
            r.is_simple("policy_created"@, "policy"@, self.actor_id@, None, now),
    {
        AuditEvent::simple("policy_created", "policy", self.actor_id.as_str(), None, now)
    }
}

impl ExecutionPolicyDeletion {
    /// Takes whether there was such an execution policy.
    pub fn deleted(self, deleted: bool) -> (r: Result<(), AppError>)
        ensures
            match r {
                Ok(_) => deleted,
                Err(e) => !deleted && e@ == ErrorView::NotFound("execution policy not found"@),
            },
    {
        if !deleted {
            return Err(AppError::NotFound("execution policy not found".to_string()));
        }
        Ok(())
    }
}

/// Whether a role comes with the system.
pub open spec fn built_in_role(name: Seq<char>) -> bool {
    name == "admin"@ || name == "agent-default"@
}

fn is_built_in(name: &str) -> (r: bool)
    ensures
        r == built_in_role(name@),
{
    same_text(name, "admin") || same_text(name, "agent-default")
}

impl RoleCreation {
    /// Refuses the name of a built-in role.
    pub fn named(self) -> (r: Result<RoleCounting, AppError>)
        ensures
            if built_in_role(self.role.name@) {
                r matches Err(e) && e@ == ErrorView::Validation("cannot use built-in role name"@)
            } else {
                r matches Ok(s) && s.role == self.role && s.actor_id == self.actor_id
            },
    {
        if is_built_in(self.role.name.as_str()) {
            return Err(AppError::Validation("cannot use built-in role name".to_string()));
        }
        Ok(RoleCounting { role: self.role, actor_id: self.actor_id })
    }
}

impl RoleCounting {
    /// Takes how many roles there are, and how many are allowed.
    pub fn counted(self, count: u32, max: u32) -> (r: Result<RoleStored, AppError>)
        ensures
            if count >= max {
                r matches Err(e) && e@ == ErrorView::PlanLimit("role limit reached"@)
            } else {
                r matches Ok(s) && s.role == self.role && s.actor_id == self.actor_id
            },
    {
        if count >= max {
            return Err(AppError::PlanLimit("role limit reached".to_string()));
        }
        Ok(RoleStored { role: self.role, actor_id: self.actor_id })
    }
}

impl RoleStored {
    /// The record of the creation.
    pub fn record(&self, now: Timestamp) -> (r: AuditEvent)
        ensures
            r.is_simple("policy_created"@, "policy"@, self.actor_id@, Some(self.role.name@), now),
    {
        AuditEvent::simple(
            "policy_created",
            "policy",
            self.actor_id.as_str(),
            Some(self.role.name.clone()),
            now,
        )
    }
}

impl RoleDeletion {
    /// Refuses the name of a built-in role.
    pub fn named(self) -> (r: Result<RoleDeleting, AppError>)
        ensures
            if built_in_role(self.name@) {
                r matches Err(e) && e@ == ErrorView::Validation("cannot delete built-in role"@)
            } else {
                r matches Ok(s) && s.name == self.name
            },
    {
        if is_built_in(self.name.as_str()) {
            return Err(AppError::Validation("cannot delete built-in role".to_string()));
        }
        Ok(RoleDeleting { name: self.name })
    }
}

impl RoleDeleting {
    /// Takes whether there was such a role.
    pub fn deleted(self, deleted: bool) -> (r: Result<(), AppError>)
        ensures
            match r {
                Ok(_) => deleted,
                Err(e) => !deleted && e@ == ErrorView::NotFound("role not found"@),
            },
    {
        if !deleted {
            return Err(AppError::NotFound("role not found".to_string()));
        }
        Ok(())
    }
}

/// Workflows, execution policies and roles are each managed with a permission of
/// their own.
pub proof fn managing_needs_its_permission(
    uc: PolicyManage,
    input: CreateWorkflowInput,
    policy: ExecutionPolicy,
    role: RoleDefinition,
    user: AuthUser,
    name: &str,
    cw: Gate<WorkflowCreation>,
    lw: Gate<Listing>,
    dw: Gate<WorkflowDeletion>,
    cp: Gate<ExecutionPolicyCreation>,
    lp: Gate<Listing>,
    dp: Gate<ExecutionPolicyDeletion>,
    cr: Gate<RoleCreation>,
    lr: Gate<Listing>,
    dr: Gate<RoleDeletion>,
)
    requires
        call_ensures(PolicyManage::create_workflow, (&uc, input, &user), cw),
        call_ensures(PolicyManage::list_workflows, (&uc,), lw),
        call_ensures(PolicyManage::delete_workflow, (&uc, name, &user), dw),
        call_ensures(PolicyManage::create_execution_policy, (&uc, policy, &user), cp),
        call_ensures(PolicyManage::list_execution_policies, (&uc,), lp),
        call_ensures(PolicyManage::delete_execution_policy, (&uc, name), dp),
        call_ensures(PolicyManage::create_role, (&uc, role, &user), cr),
        call_ensures(PolicyManage::list_roles, (&uc,), lr),
        call_ensures(PolicyManage::delete_role, (&uc, name), dr),
    ensures
        cw.permission == Permission::WorkflowManage && lw.permission == Permission::WorkflowManage
            && dw.permission == Permission::WorkflowManage,
        cp.permission == Permission::PolicyManage && lp.permission == Permission::PolicyManage
            && dp.permission == Permission::PolicyManage,
        cr.permission == Permission::RoleManage && lr.permission == Permission::RoleManage
            && dr.permission == Permission::RoleManage,
        cw.next.input == input && cw.next.actor_id == user.subject_id,
        cp.next.policy == policy && cp.next.actor_id == user.subject_id,
        cr.next.role == role && cr.next.actor_id == user.subject_id,
        dw.next.id@ == name@ && dw.next.actor_id == user.subject_id,
        dp.next.id@ == name@,
        dr.next.name@ == name@,
{
}

/// Another one is created only while there are fewer than allowed; of execution
/// policies three are.
pub proof fn plans_limit_how_many_there_are(
    w: WorkflowCreation,
    p: ExecutionPolicyCreation,
    o: RoleCounting,
    count: u32,
    max: u32,
    rw: Result<WorkflowDraft, AppError>,
    rp: Result<ExecutionPolicyStored, AppError>,
    ro: Result<RoleStored, AppError>,
)
    requires
        call_ensures(WorkflowCreation::counted, (w, count, max), rw),
        call_ensures(ExecutionPolicyCreation::counted, (p, count), rp),
        call_ensures(RoleCounting::counted, (o, count, max), ro),
    ensures
        rw is Ok <==> count < max,
        rw is Err ==> rw->Err_0 is PlanLimit,
        rw matches Ok(s) ==> s.input == w.input && s.actor_id == w.actor_id,
        rp is Ok <==> count < 3,
        rp is Err ==> rp->Err_0 is PlanLimit,
        rp matches Ok(s) ==> s.policy == p.policy && s.actor_id == p.actor_id,
        ro is Ok <==> count < max,
        ro is Err ==> ro->Err_0 is PlanLimit,
        ro matches Ok(s) ==> s.role == o.role && s.actor_id == o.actor_id,
{
}

/// The roles `admin` and `agent-default` are neither created nor deleted; any
/// other is.
pub proof fn built_in_roles_stay(
    c: RoleCreation,
    d: RoleDeletion,
    rc: Result<RoleCounting, AppError>,
    rd: Result<RoleDeleting, AppError>,
)
    requires
        call_ensures(RoleCreation::named, (c,), rc),
        call_ensures(RoleDeletion::named, (d,), rd),
    ensures
        rc is Err <==> c.role.name@ == "admin"@ || c.role.name@ == "agent-default"@,
        rc is Err ==> rc->Err_0 is Validation,
        rc matches Ok(s) ==> s.role == c.role && s.actor_id == c.actor_id,
        rd is Err <==> d.name@ == "admin"@ || d.name@ == "agent-default"@,
        rd is Err ==> rd->Err_0 is Validation,
        rd matches Ok(s) ==> s.name == d.name,
{
}

/// A new workflow does what was asked for, lets nobody approve their own request
/// or twice, and passes nothing without approval.
pub proof fn new_workflows_are_strict(stage: WorkflowDraft, now: Timestamp, id: &str, r: WorkflowStored)
    requires
        call_ensures(WorkflowDraft::build, (stage, now, id), r),
    ensures
        r.workflow.id@ == "wf-"@ + id@,
        r.workflow.database == stage.input.database,
        r.workflow.environment == stage.input.environment,
        r.workflow.operations == stage.input.operations,
        r.workflow.steps == stage.input.steps,
        r.workflow.require_reason == stage.input.require_reason,
        !r.workflow.allow_self_approve,
        !r.workflow.allow_same_approver_across_steps,
        r.workflow.auto_approve is None,
        r.workflow.explain,
        r.workflow.pending_ttl_secs is None,
        r.workflow.approval_ttl_secs is None,
        r.workflow.statement_timeout_secs is None,
        r.workflow.created_at == Some(now),
        r.workflow.updated_at == Some(now),
        r.actor_id == stage.actor_id,
{
}

/// What was not there cannot be deleted.
pub proof fn deleting_tells_what_was_not_there(
    w: WorkflowDeletion,
    p: ExecutionPolicyDeletion,
    o: RoleDeleting,
    deleted: bool,
    rw: Result<WorkflowDeleted, AppError>,
    rp: Result<(), AppError>,
    ro: Result<(), AppError>,
)
    requires
        call_ensures(WorkflowDeletion::deleted, (w, deleted), rw),
        call_ensures(ExecutionPolicyDeletion::deleted, (p, deleted), rp),
        call_ensures(RoleDeleting::deleted, (o, deleted), ro),
    ensures
        rw is Ok <==> deleted,
        rp is Ok <==> deleted,
        ro is Ok <==> deleted,
        rw is Err ==> rw->Err_0 is NotFound,
        rp is Err ==> rp->Err_0 is NotFound,
        ro is Err ==> ro->Err_0 is NotFound,
        rw matches Ok(s) ==> s.id == w.id && s.actor_id == w.actor_id,
{
}

/// Every change is recorded under who made it and what it changed.
pub proof fn changes_are_recorded(
    w: WorkflowStored,
    d: WorkflowDeleted,
    p: ExecutionPolicyStored,
    o: RoleStored,
    now: Timestamp,
    ew: AuditEvent,
    ed: AuditEvent,
    ep: AuditEvent,
    eo: AuditEvent,
)
    requires
        call_ensures(WorkflowStored::record, (&w, now), ew),
        call_ensures(WorkflowDeleted::record, (&d, now), ed),
        call_ensures(ExecutionPolicyStored::record, (&p, now), ep),
        call_ensures(RoleStored::record, (&o, now), eo),
    ensures
        ew.event_type@ == "policy_created"@ && ep.event_type@ == "policy_created"@ && eo.event_type@
            == "policy_created"@,
        ed.event_type@ == "policy_deleted"@,
        ew.event_category@ == "policy"@ && ed.event_category@ == "policy"@ && ep.event_category@
            == "policy"@ && eo.event_category@ == "policy"@,
        ew.actor_id@ == w.actor_id@ && ed.actor_id@ == d.actor_id@ && ep.actor_id@ == p.actor_id@
            && eo.actor_id@ == o.actor_id@,
        ew.resource_id is Some && ew.resource_id->0@ == w.workflow.id@,
        ed.resource_id is Some && ed.resource_id->0@ == d.id@,
        ep.resource_id is None,
        eo.resource_id is Some && eo.resource_id->0@ == o.role.name@,
        ew.created_at == now && ed.created_at == now && ep.created_at == now && eo.created_at
            == now,
{
}

/// A caller is told which limit is reached and what is built in.
pub proof fn callers_are_told_what_is_not_allowed(
    w: WorkflowCreation,
    p: ExecutionPolicyCreation,
    o: RoleCounting,
    c: RoleCreation,
    d: RoleDeletion,
    count: u32,
    max: u32,
    ew: AppError,
    ep: AppError,
    eo: AppError,
    ec: AppError,
    ed: AppError,
)
    requires
        call_ensures(
            WorkflowCreation::counted,
            (w, count, max),
            Err::<WorkflowDraft, AppError>(ew),
        ),
        call_ensures(
            ExecutionPolicyCreation::counted,
            (p, count),
            Err::<ExecutionPolicyStored, AppError>(ep),
        ),
        call_ensures(RoleCounting::counted, (o, count, max), Err::<RoleStored, AppError>(eo)),
        call_ensures(RoleCreation::named, (c,), Err::<RoleCounting, AppError>(ec)),
        call_ensures(RoleDeletion::named, (d,), Err::<RoleDeleting, AppError>(ed)),
    ensures
        ew@ == ErrorView::PlanLimit("workflow limit reached"@),
        ep@ == ErrorView::PlanLimit("execution policy limit reached"@),
        eo@ == ErrorView::PlanLimit("role limit reached"@),
        ec@ == ErrorView::Validation("cannot use built-in role name"@),
        ed@ == ErrorView::Validation("cannot delete built-in role"@),
{
}

} // verus!
