//! The values that the use cases decide on: requests, workflows, approvals,
//! executions, and the events that record what happened to them.

use vstd::prelude::*;

use crate::text::{concat2};
use crate::time::Timestamp;
use crate::use_cases::decision_trace::RiskLevel;

verus! {

/// What a request asks an agent to do.
#[derive(Clone, Copy, Debug, PartialEq, Eq, Structural)]
pub enum Operation {
    ExecuteSelect,
    ExecuteDml,
    MigrateUp,
    MigrateDown,
    MigrateStatus,
    MigrateRepair,
}

impl Operation {
    /// The name used in records and messages.
    pub open spec fn text(self) -> Seq<char> {
        match self {
            Operation::ExecuteSelect => "execute_select"@,
            Operation::ExecuteDml => "execute_dml"@,
            Operation::MigrateUp => "migrate_up"@,
            Operation::MigrateDown => "migrate_down"@,
            Operation::MigrateStatus => "migrate_status"@,
            Operation::MigrateRepair => "migrate_repair"@,
        }
    }

    /// The name used in records and messages.
    pub fn as_str(&self) -> (r: &'static str)
        ensures
            r@ == self.text(),
    {
        match self {
            Operation::ExecuteSelect => "execute_select",
            Operation::ExecuteDml => "execute_dml",
            Operation::MigrateUp => "migrate_up",
            Operation::MigrateDown => "migrate_down",
            Operation::MigrateStatus => "migrate_status",
            Operation::MigrateRepair => "migrate_repair",
        }
    }

    /// Whether the operation is named by the caller rather than read off the
    /// statement.
    pub open spec fn migration(self) -> bool {
        self is MigrateUp || self is MigrateDown || self is MigrateStatus || self is MigrateRepair
    }

    /// Whether the operation is named by the caller rather than read off the
    /// statement.
    pub fn is_migration(&self) -> (r: bool)
        ensures
            r == self.migration(),
    {
        match self {
            Operation::MigrateUp => true,
            Operation::MigrateDown => true,
            Operation::MigrateStatus => true,
            Operation::MigrateRepair => true,
            _ => false,
        }
    }
}

/// Where a request stands.
#[derive(Clone, Copy, Debug, PartialEq, Eq, Structural)]
pub enum RequestStatus {
    Pending,
    Approved,
    AutoApproved,
    BreakGlass,
    Rejected,
    Cancelled,
    Dispatched,
    Running,
    Executed,
    Failed,
    ExecutionLost,
    Expired,
}

impl RequestStatus {
    /// The name used in records and messages.
    pub open spec fn text(self) -> Seq<char> {
        match self {
            RequestStatus::Pending => "pending"@,
            RequestStatus::Approved => "approved"@,
            RequestStatus::AutoApproved => "auto_approved"@,
            RequestStatus::BreakGlass => "break_glass"@,
            RequestStatus::Rejected => "rejected"@,
            RequestStatus::Cancelled => "cancelled"@,
            RequestStatus::Dispatched => "dispatched"@,
            RequestStatus::Running => "running"@,
            RequestStatus::Executed => "executed"@,
            RequestStatus::Failed => "failed"@,
            RequestStatus::ExecutionLost => "execution_lost"@,
            RequestStatus::Expired => "expired"@,
        }
    }

    /// The name used in records and messages.
    pub fn as_str(&self) -> (r: &'static str)
        ensures
            r@ == self.text(),
    {
        match self {
            RequestStatus::Pending => "pending",
            RequestStatus::Approved => "approved",
            RequestStatus::AutoApproved => "auto_approved",
            RequestStatus::BreakGlass => "break_glass",
            RequestStatus::Rejected => "rejected",
            RequestStatus::Cancelled => "cancelled",
            RequestStatus::Dispatched => "dispatched",
            RequestStatus::Running => "running",
            RequestStatus::Executed => "executed",
            RequestStatus::Failed => "failed",
            RequestStatus::ExecutionLost => "execution_lost",
            RequestStatus::Expired => "expired",
        }
    }
}

/// Where one run of a request by an agent stands.
#[derive(Clone, Copy, Debug, PartialEq, Eq, Structural)]
pub enum ExecutionStatus {
    Claimed,
    Completed,
    Failed,
}

impl ExecutionStatus {
    /// The name used in messages.
    pub open spec fn text(self) -> Seq<char> {
        match self {
            ExecutionStatus::Claimed => "Claimed"@,
            ExecutionStatus::Completed => "Completed"@,
            ExecutionStatus::Failed => "Failed"@,
        }
    }

    /// The name used in messages.
    pub fn as_str(&self) -> (r: &'static str)
        ensures
            r@ == self.text(),
    {
        match self {
            ExecutionStatus::Claimed => "Claimed",
            ExecutionStatus::Completed => "Completed",
            ExecutionStatus::Failed => "Failed",
        }
    }
}

/// What a caller may be allowed to do.
#[derive(Clone, Copy, Debug, PartialEq, Eq, Structural)]
pub enum Permission {
    All,
    AgentClaim,
    AgentHeartbeat,
    AgentOperate,
    AuditView,
    AuditViewAll,
    PolicyManage,
    RequestApprove,
    RequestBreakGlass,
    RequestBreakGlassDdl,
    RequestCancel,
    RequestDispatch,
    RequestExecute,
    RequestPreflight,
    RequestPreflightExplain,
    RequestQuery,
    RequestResume,
    RequestView,
    ResultView,
    RoleManage,
    WorkflowManage,
}

/// What a role allows, and where.
pub struct RoleDefinition {
    pub name: String,
    pub permissions: Vec<Permission>,
    pub databases: Vec<String>,
    pub environments: Vec<String>,
}

/// The kind of a caller.
#[derive(Clone, Copy, Debug, PartialEq, Eq, Structural)]
pub enum SubjectType {
    User,
    Agent,
}

/// A caller: its identity, the names of its roles and its groups.
pub struct AuthUser {
    pub subject_id: String,
    pub subject_type: SubjectType,
    pub roles: Vec<String>,
    pub groups: Vec<String>,
    pub token_id: Option<String>,
}

/// Whom an approval step or a result policy names.
pub enum Selector {
    Role(String),
    Group(String),
    User(String),
}

impl Selector {
    /// The textual form, such as `role:dba`.
    pub open spec fn text(self) -> Seq<char> {
        match self {
            Selector::Role(v) => "role:"@ + v@,
            Selector::Group(v) => "group:"@ + v@,
            Selector::User(v) => "user:"@ + v@,
        }
    }

    /// The textual form, such as `role:dba`.
    pub fn to_text(&self) -> (r: String)
        ensures
            r@ == self.text(),
    {
        match self {
            Selector::Role(v) => concat2("role:", v.as_str()),
            Selector::Group(v) => concat2("group:", v.as_str()),
            Selector::User(v) => concat2("user:", v.as_str()),
        }
    }

    /// A copy of the selector.
    pub fn copy(&self) -> (r: Selector)
        ensures
            r == *self,
    {
        match self {
            Selector::Role(v) => Selector::Role(v.clone()),
            Selector::Group(v) => Selector::Group(v.clone()),
            Selector::User(v) => Selector::User(v.clone()),
        }
    }
}

/// A selector of an approval step and how many approvals it needs.
pub struct ApproverGroup {
    pub selector: Selector,
    pub min: u32,
}

impl ApproverGroup {
    /// A copy of the group.
    pub fn copy(&self) -> (r: ApproverGroup)
        ensures
            r == *self,
    {
        ApproverGroup { selector: self.selector.copy(), min: self.min }
    }
}

/// The textual forms of the selectors of a step, in order.
pub open spec fn selector_texts(groups: Seq<ApproverGroup>) -> Seq<Seq<char>> {
    groups.map_values(|g: ApproverGroup| g.selector.text())
}

/// A copy of the groups in order.
pub fn copy_groups(groups: &Vec<ApproverGroup>) -> (r: Vec<ApproverGroup>)
    ensures
        r@ == groups@,
{
    let mut out: Vec<ApproverGroup> = Vec::new();
    let n: usize = groups.len();
    let mut i: usize = 0;
    while i < n
        invariant
            i <= n,
            n == groups@.len(),
            out@ == groups@.take(i as int),
        decreases n - i,
    {
        out.push(groups[i].copy());
        i += 1;
        assert(out@ =~= groups@.take(i as int));
    }
    assert(groups@.take(n as int) =~= groups@);
    out
}

/// The textual forms of the selectors of a step, in order.
pub fn group_texts(groups: &Vec<ApproverGroup>) -> (r: Vec<String>)
    ensures
        crate::text::texts(r@) == selector_texts(groups@),
{
    let mut out: Vec<String> = Vec::new();
    let n: usize = groups.len();
    let mut i: usize = 0;
    while i < n
        invariant
            i <= n,
            n == groups@.len(),
            out@.len() == i,
            forall|k: int| 0 <= k < i ==> (#[trigger] out@[k])@ == groups@[k].selector.text(),
        decreases n - i,
    {
        out.push(groups[i].selector.to_text());
        i += 1;
    }
    assert(crate::text::texts(out@) =~= selector_texts(groups@));
    out
}

/// The textual forms of selectors, in order.
pub open spec fn access_texts(access: Seq<Selector>) -> Seq<Seq<char>> {
    access.map_values(|s: Selector| s.text())
}

/// The textual forms of selectors, in order.
pub fn selectors_to_texts(access: &Vec<Selector>) -> (r: Vec<String>)
    ensures
        crate::text::texts(r@) == access_texts(access@),
{
    let mut out: Vec<String> = Vec::new();
    let n: usize = access.len();
    let mut i: usize = 0;
    while i < n
        invariant
            i <= n,
            n == access@.len(),
            out@.len() == i,
            forall|k: int| 0 <= k < i ==> (#[trigger] out@[k])@ == access@[k].text(),
        decreases n - i,
    {
        out.push(access[i].to_text());
        i += 1;
    }
    assert(crate::text::texts(out@) =~= access_texts(access@));
    out
}

/// Whether one group of a step is enough or every group is needed.
#[derive(Clone, Copy, Debug, PartialEq, Eq, Structural)]
pub enum WorkflowStepMode {
    Any,
    All,
}

/// One step of an approval workflow.
pub struct WorkflowStep {
    pub approvers: Vec<ApproverGroup>,
    pub mode: WorkflowStepMode,
}

/// When a workflow lets a request through without approval.
#[derive(Clone, Copy, Debug, PartialEq, Eq, Structural)]
pub enum AutoApproveMode {
    Always,
    RiskBased,
}

/// What a workflow lets through without approval.
#[derive(Clone, Copy, Debug, PartialEq, Eq, Structural)]
pub struct AutoApproveSettings {
    pub mode: AutoApproveMode,
    pub max_risk_level: Option<RiskLevel>,
    pub allow_read_only: bool,
    pub allow_safe_ddl: bool,
    pub max_estimated_rows: i64,
}

/// An approval workflow for a database and environment.
pub struct Workflow {
    pub id: String,
    pub database: String,
    pub environment: String,
    pub operations: Vec<Operation>,
    pub auto_approve: Option<AutoApproveSettings>,
    pub steps: Vec<WorkflowStep>,
    pub require_reason: bool,
    pub allow_self_approve: bool,
    pub allow_same_approver_across_steps: bool,
    pub explain: bool,
    pub pending_ttl_secs: Option<u64>,
    pub statement_timeout_secs: Option<u64>,
    pub approval_ttl_secs: Option<u64>,
    pub created_at: Option<Timestamp>,
    pub updated_at: Option<Timestamp>,
}

/// The name that stands for every database or every environment.
pub open spec fn wildcard() -> Seq<char> {
    "*"@
}

/// A database and an environment that an agent serves; either may be the
/// wildcard.
pub struct DatabaseCapability {
    pub database: String,
    pub environment: String,
}

/// A job that an agent says it is running.
pub struct ActiveJobEntry {
    pub execution_id: String,
    pub request_id: String,
}

/// Whether an agent takes new work.
#[derive(Clone, Copy, Debug, PartialEq, Eq, Structural)]
pub enum AgentStatus {
    Active,
    Draining,
}

/// An agent as it is registered.
pub struct Agent {
    pub id: String,
    pub token_id: String,
    pub databases: Vec<DatabaseCapability>,
    pub status: AgentStatus,
    pub max_concurrent: u32,
    pub in_flight: u32,
    pub uptime_secs: u64,
    pub active_jobs: Vec<ActiveJobEntry>,
    pub lease_duration_secs: Option<u32>,
    pub last_seen: Option<Timestamp>,
    pub created_at: Timestamp,
}

/// How often, how long and how soon a request may be run.
pub struct ExecutionPolicy {
    pub id: String,
    pub database: String,
    pub environment: String,
    pub max_executions: u32,
    pub execution_window_secs: u64,
    pub retry_on_failure: bool,
    pub statement_timeout_secs: u32,
    pub max_statement_timeout_secs: u32,
    pub max_rows: Option<u32>,
    pub migration_lease_duration_secs: Option<u32>,
    pub migration_statement_timeout_secs: Option<u32>,
    pub created_at: Option<Timestamp>,
    pub updated_at: Option<Timestamp>,
}

/// Whether results are stored, streamed, or both.
#[derive(Clone, Copy, Debug, PartialEq, Eq, Structural)]
pub enum DeliveryMode {
    StoreOnly,
    Stream,
    Both,
}

/// How results of a database and environment are kept and who may read them.
pub struct ResultPolicy {
    pub id: String,
    pub database: String,
    pub environment: String,
    pub retention_days: u32,
    pub delivery_mode: DeliveryMode,
    pub access: Vec<Selector>,
    pub created_at: Option<Timestamp>,
    pub updated_at: Option<Timestamp>,
}

/// How a notification is written.
#[derive(Clone, Copy, Debug, PartialEq, Eq, Structural)]
pub enum WebhookFormat {
    Slack,
    Generic,
}

/// Whether a webhook is called.
#[derive(Clone, Copy, Debug, PartialEq, Eq, Structural)]
pub enum WebhookStatus {
    Active,
    Disabled,
}

/// Where notifications go.
pub struct Webhook {
    pub id: String,
    pub url: String,
    pub events: Vec<String>,
    pub format: WebhookFormat,
    pub secret: Option<String>,
    pub status: WebhookStatus,
    pub created_at: Option<Timestamp>,
    pub updated_at: Option<Timestamp>,
}

/// Which webhooks are told of which events of a database and environment.
pub struct NotificationPolicy {
    pub id: String,
    pub database: String,
    pub environment: String,
    pub webhooks: Vec<String>,
    pub events: Vec<String>,
}

/// Whether a user may sign in.
#[derive(Clone, Copy, Debug, PartialEq, Eq, Structural)]
pub enum UserStatus {
    Active,
    Suspended,
}

/// A user as it is stored.
pub struct User {
    pub id: String,
    pub display_name: Option<String>,
    pub email: Option<String>,
    pub groups: Vec<String>,
    pub roles: Vec<String>,
    pub status: UserStatus,
    pub last_seen_at: Option<Timestamp>,
    pub created_at: Timestamp,
    pub updated_at: Timestamp,
}

/// A request as it is stored.
pub struct Request {
    pub id: String,
    pub requester: String,
    pub database: String,
    pub environment: String,
    pub operation: Operation,
    pub detail: String,
    pub status: RequestStatus,
    pub emergency: bool,
    pub reason: Option<String>,
    pub idempotency_key: Option<String>,
    pub idempotency_fingerprint: Option<String>,
    pub metadata_json: String,
    pub share_with: Vec<String>,
    pub no_result_store: bool,
    pub workflow_snapshot_json: Option<String>,
    pub decision_trace_json: Option<String>,
    pub execution_plan_json: Option<String>,
    pub cancel_reason: Option<String>,
    pub cancelled_by: Option<String>,
    pub created_at: Timestamp,
    pub updated_at: Timestamp,
    pub resolved_at: Option<Timestamp>,
    pub expires_at: Option<Timestamp>,
}

/// A vote on a request.
#[derive(Clone, Copy, Debug, PartialEq, Eq, Structural)]
pub enum ApprovalAction {
    Approve,
    Reject,
}

/// A recorded vote on one step of a request.
pub struct Approval {
    pub id: String,
    pub request_id: String,
    pub action: ApprovalAction,
    pub actor_id: String,
    pub matched_selector: String,
    pub step_index: u32,
    pub comment: Option<String>,
    pub created_at: Timestamp,
}

impl Approval {
    /// A copy of the vote.
    pub fn copy(&self) -> (r: Approval)
        ensures
            r == *self,
    {
        Approval {
            id: self.id.clone(),
            request_id: self.request_id.clone(),
            action: self.action,
            actor_id: self.actor_id.clone(),
            matched_selector: self.matched_selector.clone(),
            step_index: self.step_index,
            comment: self.comment.clone(),
            created_at: self.created_at,
        }
    }
}

/// One run of a request by an agent.
pub struct Execution {
    pub id: String,
    pub request_id: String,
    pub agent_id: String,
    pub status: ExecutionStatus,
    pub token: String,
    pub lease_expires_at: Timestamp,
    pub started_at: Option<Timestamp>,
    pub finished_at: Option<Timestamp>,
    pub error_message: Option<String>,
    pub created_at: Timestamp,
}

/// The resource that an authorization is asked for.
pub enum ResourceContext {
    Global,
    Request { requester_id: String },
    RequestMutate { requester_id: String },
    ApprovalStep {
        requester_id: String,
        step_index: u32,
        approvers: Vec<ApproverGroup>,
        allow_self_approve: bool,
        allow_same_approver_across_steps: bool,
        previous_approver_ids: Vec<String>,
    },
    AgentExecution { agent_id: String },
    Result { requester_id: String, access_selectors: Vec<String> },
}

/// What moves a request from one status to the next.
#[derive(Clone, Copy, Debug, PartialEq, Eq, Structural)]
pub enum RequestTrigger {
    Dispatch,
    ApproveStep,
    ApproveFinal,
    Reject,
    Cancel,
    Claim,
    Complete { success: bool },
}

/// What an event says beyond the change of status.
pub enum EventMetadata {
    Created { detail: String, emergency: bool },
    StepApproved {
        step_index: u32,
        total_steps: u32,
        comment: Option<String>,
        matched_selector: String,
    },
    Approved { comment: Option<String>, matched_selector: String },
    Rejected { comment: Option<String> },
    Cancelled { reason: Option<String> },
    Dispatched,
    Claimed { execution_id: String, agent_id: String },
    Completed { success: bool, execution_id: String },
    ExecutionLost { execution_id: String },
    Expired,
}

/// What a change of status is asked for with: who, on what, when and why.
pub struct TransitionContext {
    pub request_id: String,
    pub actor_id: String,
    pub actor_type: SubjectType,
    pub database: String,
    pub environment: String,
    pub operation: Operation,
    pub timestamp: Timestamp,
    pub metadata: EventMetadata,
    pub requester_id: String,
}

/// A change of status that happened.
pub struct TransitionEvent {
    pub request_id: String,
    pub previous_status: RequestStatus,
    pub new_status: RequestStatus,
    pub actor_id: String,
    pub actor_type: SubjectType,
    pub database: String,
    pub environment: String,
    pub operation: Operation,
    pub timestamp: Timestamp,
    pub metadata: EventMetadata,
    pub requester_id: String,
    pub auth_token_id: Option<String>,
}

/// The answer of the status machine to a trigger: the new status with its
/// event, or why the trigger does not apply.
pub type TransitionReply = Result<TransitionEvent, String>;

/// A record of the audit log.
pub struct AuditEvent {
    pub event_type: String,
    pub event_category: String,
    pub actor_id: String,
    pub resource_id: Option<String>,
    pub created_at: Timestamp,
    pub request_id: Option<String>,
    pub database_name: Option<String>,
    pub environment: Option<String>,
    pub operation: Option<String>,
    pub reason: Option<String>,
    pub detail_fingerprint: Option<String>,
    pub detail_raw: Option<String>,
    pub metadata_json: String,
}

impl AuditEvent {
    /// Whether `self` is a record of the given kind with nothing else set.
    pub open spec fn is_simple(
        self,
        event_type: Seq<char>,
        category: Seq<char>,
        actor_id: Seq<char>,
        resource_id: Option<Seq<char>>,
        at: Timestamp,
    ) -> bool {
        &&& self.event_type@ == event_type
        &&& self.event_category@ == category
        &&& self.actor_id@ == actor_id
        &&& (self.resource_id is Some <==> resource_id is Some)
        &&& (resource_id is Some ==> self.resource_id->0@ == resource_id->0)
        &&& self.created_at == at
        &&& self.request_id is None
        &&& self.database_name is None
        &&& self.environment is None
        &&& self.operation is None
        &&& self.reason is None
        &&& self.detail_fingerprint is None
        &&& self.detail_raw is None
        &&& self.metadata_json@ == "{}"@
    }

    /// A record of the given kind with nothing else set.
    pub fn simple(
        event_type: &str,
        category: &str,
        actor_id: &str,
        resource_id: Option<String>,
        at: Timestamp,
    ) -> (r: AuditEvent)
        ensures
            r.is_simple(
                event_type@,
                category@,
                actor_id@,
                match resource_id {
                    Some(s) => Some(s@),
                    None => None,
                },
                at,
            ),
            r.resource_id == resource_id,
    {
        AuditEvent {
            event_type: event_type.to_string(),
            event_category: category.to_string(),
            actor_id: actor_id.to_string(),
            resource_id,
            created_at: at,
            request_id: None,
            database_name: None,
            environment: None,
            operation: None,
            reason: None,
            detail_fingerprint: None,
            detail_raw: None,
            metadata_json: "{}".to_string(),
        }
    }
}

/// Operations go by their names in records.
pub proof fn operations_go_by_their_names(op: Operation, r: &'static str)
    requires
        call_ensures(Operation::as_str, (&op,), r),
    ensures
        op == Operation::ExecuteSelect ==> r@ == "execute_select"@,
        op == Operation::ExecuteDml ==> r@ == "execute_dml"@,
        op == Operation::MigrateUp ==> r@ == "migrate_up"@,
        op == Operation::MigrateDown ==> r@ == "migrate_down"@,
        op == Operation::MigrateStatus ==> r@ == "migrate_status"@,
        op == Operation::MigrateRepair ==> r@ == "migrate_repair"@,
{
}

/// The states of a request go by their names in records.
pub proof fn request_states_go_by_their_names(status: RequestStatus, r: &'static str)
    requires
        call_ensures(RequestStatus::as_str, (&status,), r),
    ensures
        status == RequestStatus::Pending ==> r@ == "pending"@,
        status == RequestStatus::Approved ==> r@ == "approved"@,
        status == RequestStatus::AutoApproved ==> r@ == "auto_approved"@,
        status == RequestStatus::BreakGlass ==> r@ == "break_glass"@,
        status == RequestStatus::Rejected ==> r@ == "rejected"@,
        status == RequestStatus::Cancelled ==> r@ == "cancelled"@,
        status == RequestStatus::Dispatched ==> r@ == "dispatched"@,
        status == RequestStatus::Running ==> r@ == "running"@,
        status == RequestStatus::Executed ==> r@ == "executed"@,
        status == RequestStatus::Failed ==> r@ == "failed"@,
        status == RequestStatus::ExecutionLost ==> r@ == "execution_lost"@,
        status == RequestStatus::Expired ==> r@ == "expired"@,
{
}

/// A selector is written as its kind and its value.
pub proof fn selectors_are_written_with_their_kind(s: Selector, r: String)
    requires
        call_ensures(Selector::to_text, (&s,), r),
    ensures
        s matches Selector::Role(v) ==> r@ == "role:"@ + v@,
        s matches Selector::Group(v) ==> r@ == "group:"@ + v@,
        s matches Selector::User(v) ==> r@ == "user:"@ + v@,
{
}

/// Everything but reading and changing data is a migration.
pub proof fn migrations_are_told_apart(op: Operation, r: bool)
    requires
        call_ensures(Operation::is_migration, (&op,), r),
    ensures
        !r <==> op == Operation::ExecuteSelect || op == Operation::ExecuteDml,
{
}

/// A plain record says who did what to what, and when, and nothing else.
pub proof fn plain_records_say_who_did_what(
    event_type: &str,
    category: &str,
    actor: &str,
    resource: Option<String>,
    at: Timestamp,
    r: AuditEvent,
)
    requires
        call_ensures(AuditEvent::simple, (event_type, category, actor, resource, at), r),
    ensures
        r.event_type@ == event_type@,
        r.event_category@ == category@,
        r.actor_id@ == actor@,
        r.resource_id == resource,
        r.created_at == at,
        r.request_id is None,
        r.database_name is None,
        r.environment is None,
        r.operation is None,
        r.reason is None,
        r.detail_fingerprint is None,
        r.detail_raw is None,
        r.metadata_json@ == "{}"@,
{
}

/// The selectors of groups and of policies are written in their order.
pub proof fn selectors_are_written_in_order(
    groups: Vec<ApproverGroup>,
    g: Vec<String>,
    access: Vec<Selector>,
    a: Vec<String>,
    i: int,
    j: int,
)
    requires
        call_ensures(group_texts, (&groups,), g),
        call_ensures(selectors_to_texts, (&access,), a),
        0 <= i < groups@.len(),
        0 <= j < access@.len(),
    ensures
        g@.len() == groups@.len(),
        g@[i]@ == groups@[i].selector.text(),
        a@.len() == access@.len(),
        a@[j]@ == access@[j].text(),
{
    assert(crate::text::texts(g@).len() == g@.len());
    assert(crate::text::texts(a@).len() == a@.len());
    assert(crate::text::texts(g@)[i] == g@[i]@);
    assert(crate::text::texts(a@)[j] == a@[j]@);
}

} // verus!
