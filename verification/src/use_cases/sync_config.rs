//! Bringing the stored settings in line with the configuration. What the
//! configuration says is checked and turned into records; the names, operations,
//! permissions and selectors in it are read by others, and their readings are
//! handed in.

use vstd::prelude::*;

use crate::domain::{
    ApproverGroup, DeliveryMode, ExecutionPolicy, NotificationPolicy, Operation, Permission,
    ResultPolicy, RoleDefinition, Selector, User, UserStatus, Webhook, WebhookFormat, WebhookStatus,
    Workflow, WorkflowStep, WorkflowStepMode,
};
use crate::error::{AppError, ErrorView};
use crate::text::{
    concat2, concat3, concat4, concat5, copy_texts, decimal, decimal_text, same_text, texts,
};
use crate::time::Timestamp;

verus! {

/// The use case.
pub struct SyncConfig {}

/// A workflow in the configuration.
pub struct WorkflowInput {
    pub database: String,
    pub environment: String,
    pub operations: Vec<String>,
    pub steps: Vec<WorkflowStepInput>,
    pub require_reason: bool,
    pub allow_self_approve: bool,
    pub allow_same_approver_across_steps: bool,
    pub explain: bool,
    pub pending_ttl_secs: Option<u64>,
    pub statement_timeout_secs: Option<u64>,
}

/// A step of a workflow in the configuration.
pub struct WorkflowStepInput {
    pub mode: String,
    pub approvers: Vec<ApproverInput>,
}

/// An approver in the configuration.
pub struct ApproverInput {
    pub selector_type: String,
    pub value: String,
    pub min: u32,
}

/// A webhook in the configuration.
pub struct WebhookInput {
    pub id: String,
    pub url: String,
    pub events: Vec<String>,
    pub format: String,
    pub secret: Option<String>,
}

/// An execution policy in the configuration.
pub struct ExecutionPolicyInput {
    pub database: String,
    pub environment: String,
    pub max_executions: Option<u32>,
    pub execution_window_secs: Option<u64>,
    pub retry_on_failure: Option<bool>,
    pub statement_timeout_secs: Option<u32>,
    pub max_statement_timeout_secs: Option<u32>,
    pub max_rows: Option<u32>,
    pub migration_lease_duration_secs: Option<u32>,
    pub migration_statement_timeout_secs: Option<u32>,
}

/// A result policy in the configuration.
pub struct ResultPolicyInput {
    pub database: String,
    pub environment: String,
    pub retention_days: u32,
    pub delivery_mode: String,
    pub access: Vec<String>,
}

/// A notification policy in the configuration.
pub struct NotificationPolicyInput {
    pub database: String,
    pub environment: String,
    pub webhooks: Vec<String>,
    pub events: Vec<String>,
}

/// A database in the configuration.
pub struct DatabaseInput {
    pub name: String,
    pub environments: Vec<String>,
}

/// A user in the configuration.
pub struct UserInput {
    pub id: String,
    pub status: String,
}

/// A group in the configuration.
pub struct GroupInput {
    pub name: String,
    pub members: Vec<String>,
}

/// A role binding in the configuration.
pub struct RoleBindingInput {
    pub role: String,
    pub subjects: Vec<String>,
    pub groups: Vec<String>,
}

/// A role in the configuration.
pub struct RoleInput {
    pub name: String,
    pub permissions: Vec<String>,
    pub databases: Vec<String>,
    pub environments: Vec<String>,
}

/// How many records of each kind were deleted and inserted.
#[derive(Debug, Default)]
pub struct SyncSummary {
    pub databases: (u64, u64),
    pub users: (u64, u64),
    pub groups: (u64, u64),
    pub roles: (u64, u64),
    pub role_bindings: (u64, u64),
    pub webhooks: (u64, u64),
    pub workflows: (u64, u64),
    pub execution_policies: (u64, u64),
    pub result_policies: (u64, u64),
    pub notification_policies: (u64, u64),
}

/// The reading of the name of a database or environment: the name, or why it is
/// none.
pub type NameReply = Result<String, String>;

/// The readings of a database and an environment.
pub struct NamePair {
    pub database: NameReply,
    pub environment: NameReply,
}

/// Why a name is refused; the wildcard never is.
pub open spec fn name_error(name: Seq<char>, reply: NameReply, prefix: Seq<char>) -> Option<ErrorView> {
    if name == "*"@ {
        None
    } else {
        match reply {
            Err(e) => Some(ErrorView::Validation(prefix + e@)),
            Ok(_) => None,
        }
    }
}

/// The name that is kept.
pub open spec fn accepted_name(name: Seq<char>, reply: NameReply) -> Seq<char> {
    if name == "*"@ {
        "*"@
    } else {
        reply->Ok_0@
    }
}

fn accept_name(name: &String, reply: &NameReply, prefix: &str) -> (r: Result<String, AppError>)
    ensures
        match r {
            Err(e) => name_error(name@, *reply, prefix@) == Some(e@),
            Ok(s) => name_error(name@, *reply, prefix@) is None && s@ == accepted_name(
                name@,
                *reply,
            ),
        },
{
    if same_text(name.as_str(), "*") {
        return Ok("*".to_string());
    }
    match reply {
        Err(e) => Err(AppError::Validation(concat2(prefix, e.as_str()))),
        Ok(s) => Ok(s.clone()),
    }
}

/// The first error among names from `i` on.
pub open spec fn first_name_error(
    names: Seq<String>,
    replies: Seq<NameReply>,
    prefix: Seq<char>,
    i: int,
) -> Option<ErrorView>
    decreases names.len() - i,
{
    if i < 0 || i >= names.len() {
        None
    } else {
        match name_error(names[i]@, replies[i], prefix) {
            Some(e) => Some(e),
            None => first_name_error(names, replies, prefix, i + 1),
        }
    }
}

/// The names of a role's scope; every name where none is given.
pub open spec fn scope_names(names: Seq<String>, replies: Seq<NameReply>) -> Seq<Seq<char>> {
    if names.len() == 0 {
        seq!["*"@]
    } else {
        Seq::new(names.len(), |k: int| accepted_name(names[k]@, replies[k]))
    }
}

fn accept_scope(names: &Vec<String>, replies: &Vec<NameReply>, prefix: &str) -> (r: Result<
    Vec<String>,
    AppError,
>)
    requires
        replies@.len() == names@.len(),
    ensures
        match r {
            Err(e) => first_name_error(names@, replies@, prefix@, 0) == Some(e@),
            Ok(v) => first_name_error(names@, replies@, prefix@, 0) is None && texts(v@)
                == scope_names(names@, replies@),
        },
{
    let mut out: Vec<String> = Vec::new();
    let n: usize = names.len();
    if n == 0 {
        out.push("*".to_string());
        assert(texts(out@) =~= seq!["*"@]);
        return Ok(out);
    }
    let mut i: usize = 0;
    while i < n
        invariant
            i <= n,
            n == names@.len(),
            n == replies@.len(),
            out@.len() == i,
            forall|k: int| 0 <= k < i ==> (#[trigger] out@[k])@ == accepted_name(names@[k]@, replies@[k]),
            first_name_error(names@, replies@, prefix@, 0) == first_name_error(
                names@,
                replies@,
                prefix@,
                i as int,
            ),
        decreases n - i,
    {
        match accept_name(&names[i], &replies[i], prefix) {
            Err(e) => {
                return Err(e);
            },
            Ok(s) => {
                out.push(s);
            },
        }
        i += 1;
    }
    assert(texts(out@) =~= scope_names(names@, replies@));
    Ok(out)
}

// --- databases ---

/// A database with one of its environments.
pub struct DatabaseEntry {
    pub name: String,
    pub environment: String,
}

/// A database with each of its environments, in order.
pub open spec fn entries_of(db: DatabaseInput) -> Seq<DatabaseEntry> {
    db.environments@.map_values(
        |env: String| DatabaseEntry { name: db.name, environment: env },
    )
}

/// The databases with their environments, in order.
pub open spec fn database_list(inputs: Seq<DatabaseInput>) -> Seq<DatabaseEntry>
    decreases inputs.len(),
{
    if inputs.len() == 0 {
        seq![]
    } else {
        database_list(inputs.drop_last()) + entries_of(inputs.last())
    }
}

/// The databases with their environments, in order.
pub fn database_entries(inputs: &Vec<DatabaseInput>) -> (r: Vec<DatabaseEntry>)
    ensures
        r@ == database_list(inputs@),
{
    let mut out: Vec<DatabaseEntry> = Vec::new();
    let n: usize = inputs.len();
    let mut i: usize = 0;
    while i < n
        invariant
            i <= n,
            n == inputs@.len(),
            out@ == database_list(inputs@.take(i as int)),
        decreases n - i,
    {
        let db = &inputs[i];
        let ghost before = out@;
        let m: usize = db.environments.len();
        let mut j: usize = 0;
        assert(out@ =~= before + entries_of(*db).take(0));
        while j < m
            invariant
                j <= m,
                m == db.environments@.len(),
                out@ == before + entries_of(*db).take(j as int),
            decreases m - j,
        {
            out.push(
                DatabaseEntry { name: db.name.clone(), environment: db.environments[j].clone() },
            );
            j += 1;
            assert(out@ =~= before + entries_of(*db).take(j as int));
        }
        proof {
            assert(entries_of(*db).take(m as int) =~= entries_of(*db));
            assert(inputs@.take(i + 1).drop_last() =~= inputs@.take(i as int));
            assert(inputs@.take(i + 1).last() == inputs@[i as int]);
        }
        i += 1;
    }
    assert(inputs@.take(n as int) =~= inputs@);
    out
}

/// Why an entry is refused.
pub open spec fn entry_error(names: NamePair) -> Option<ErrorView> {
    match names.database {
        Err(e) => Some(ErrorView::Validation("database name: "@ + e@)),
        Ok(_) => match names.environment {
            Err(e) => Some(ErrorView::Validation("environment: "@ + e@)),
            Ok(_) => None,
        },
    }
}

/// The place of the first refused entry from `i` on; their number where none is.
pub open spec fn first_bad_entry(names: Seq<NamePair>, i: int) -> int
    decreases names.len() - i,
{
    if i < 0 || i >= names.len() || entry_error(names[i]) is Some {
        i
    } else {
        first_bad_entry(names, i + 1)
    }
}

/// What is registered, and the error that stops it where there is one.
pub struct DatabasePlan {
    pub register: Vec<DatabaseEntry>,
    pub failure: Option<AppError>,
}

/// Whether a plan registers the names that were read up to the first that could
/// not be.
pub open spec fn registers(plan: DatabasePlan, names: Seq<NamePair>) -> bool {
    let k = first_bad_entry(names, 0);
    &&& plan.register@.len() == k
    &&& forall|j: int|
        #![trigger plan.register@[j]]
        0 <= j < k ==> names[j].database == Ok::<String, String>(plan.register@[j].name)
            && names[j].environment == Ok::<String, String>(plan.register@[j].environment)
    &&& if k < names.len() {
        plan.failure is Some && entry_error(names[k]) == Some(plan.failure->0@)
    } else {
        plan.failure is None
    }
}

// --- limits ---

/// What a licence limits.
#[derive(Clone, Copy, Debug, PartialEq, Eq, Structural)]
pub enum Limited {
    Database,
    Role,
    Webhook,
    Workflow,
}

impl Limited {
    /// The name used in messages.
    pub open spec fn text(self) -> Seq<char> {
        match self {
            Limited::Database => "database"@,
            Limited::Role => "role"@,
            Limited::Webhook => "webhook"@,
            Limited::Workflow => "workflow"@,
        }
    }
}

/// The message of an exceeded limit.
pub open spec fn limit_text(what: Limited, max: u32, have: u32) -> Seq<char> {
    what.text() + " limit exceeded (max "@ + decimal(max as nat) + ", have "@ + decimal(have as nat)
        + ")"@
}

/// Refuses more records than a licence allows.
pub fn check_limit(what: Limited, have: u32, max: u32) -> (r: Result<(), AppError>)
    ensures
        match r {
            Ok(_) => have <= max,
            Err(e) => have > max && e@ == ErrorView::Validation(limit_text(what, max, have)),
        },
{
    if have > max {
        let name: &str = match what {
            Limited::Database => "database",
            Limited::Role => "role",
            Limited::Webhook => "webhook",
            Limited::Workflow => "workflow",
        };
        let head = concat4(
            name,
            " limit exceeded (max ",
            decimal_text(max as u64).as_str(),
            ", have ",
        );
        return Err(
            AppError::Validation(
                concat3(head.as_str(), decimal_text(have as u64).as_str(), ")"),
            ),
        );
    }
    Ok(())
}

// --- the transaction ---

/// The parts of a configuration.
#[derive(Clone, Copy, Debug, PartialEq, Eq, Structural)]
pub enum SyncPart {
    Databases,
    Users,
    Groups,
    Roles,
    RoleBindings,
    Webhooks,
    Workflows,
    ExecutionPolicies,
    ResultPolicies,
    NotificationPolicies,
}

impl SyncPart {
    /// The parts in the order in which they are taken over: each after those it
    /// may refer to.
    pub open spec fn in_order() -> Seq<SyncPart> {
        seq![
            SyncPart::Databases,
            SyncPart::Users,
            SyncPart::Groups,
            SyncPart::Roles,
            SyncPart::RoleBindings,
            SyncPart::Webhooks,
            SyncPart::Workflows,
            SyncPart::ExecutionPolicies,
            SyncPart::ResultPolicies,
            SyncPart::NotificationPolicies,
        ]
    }

    /// The place of the part in the order.
    pub open spec fn place(self) -> int {
        match self {
            SyncPart::Databases => 0,
            SyncPart::Users => 1,
            SyncPart::Groups => 2,
            SyncPart::Roles => 3,
            SyncPart::RoleBindings => 4,
            SyncPart::Webhooks => 5,
            SyncPart::Workflows => 6,
            SyncPart::ExecutionPolicies => 7,
            SyncPart::ResultPolicies => 8,
            SyncPart::NotificationPolicies => 9,
        }
    }

    /// The part that follows.
    pub open spec fn following(self) -> Option<SyncPart> {
        if self.place() + 1 < SyncPart::in_order().len() {
            Some(SyncPart::in_order()[self.place() + 1])
        } else {
            None
        }
    }

    /// What a licence limits after the part was taken over.
    pub open spec fn limits(self) -> Option<Limited> {
        match self {
            SyncPart::Databases => Some(Limited::Database),
            SyncPart::Roles => Some(Limited::Role),
            SyncPart::Webhooks => Some(Limited::Webhook),
            SyncPart::Workflows => Some(Limited::Workflow),
            _ => None,
        }
    }

    fn next(self) -> (r: Option<SyncPart>)
        ensures
            r == self.following(),
    {
        match self {
            SyncPart::Databases => Some(SyncPart::Users),
            SyncPart::Users => Some(SyncPart::Groups),
            SyncPart::Groups => Some(SyncPart::Roles),
            SyncPart::Roles => Some(SyncPart::RoleBindings),
            SyncPart::RoleBindings => Some(SyncPart::Webhooks),
            SyncPart::Webhooks => Some(SyncPart::Workflows),
            SyncPart::Workflows => Some(SyncPart::ExecutionPolicies),
            SyncPart::ExecutionPolicies => Some(SyncPart::ResultPolicies),
            SyncPart::ResultPolicies => Some(SyncPart::NotificationPolicies),
            SyncPart::NotificationPolicies => None,
        }
    }

    fn limited(self) -> (r: Option<Limited>)
        ensures
            r == self.limits(),
    {
        match self {
            SyncPart::Databases => Some(Limited::Database),
            SyncPart::Roles => Some(Limited::Role),
            SyncPart::Webhooks => Some(Limited::Webhook),
            SyncPart::Workflows => Some(Limited::Workflow),
            _ => None,
        }
    }
}

/// How many records were deleted and inserted for a part.
pub type PartCounts = (u64, u64);

impl SyncSummary {
    /// The counts of a part.
    pub open spec fn of(self, part: SyncPart) -> PartCounts {
        match part {
            SyncPart::Databases => self.databases,
            SyncPart::Users => self.users,
            SyncPart::Groups => self.groups,
            SyncPart::Roles => self.roles,
            SyncPart::RoleBindings => self.role_bindings,
            SyncPart::Webhooks => self.webhooks,
            SyncPart::Workflows => self.workflows,
            SyncPart::ExecutionPolicies => self.execution_policies,
            SyncPart::ResultPolicies => self.result_policies,
            SyncPart::NotificationPolicies => self.notification_policies,
        }
    }

    /// The summary with the counts of a part.
    pub open spec fn with(self, part: SyncPart, c: PartCounts) -> SyncSummary {
        match part {
            SyncPart::Databases => SyncSummary { databases: c, ..self },
            SyncPart::Users => SyncSummary { users: c, ..self },
            SyncPart::Groups => SyncSummary { groups: c, ..self },
            SyncPart::Roles => SyncSummary { roles: c, ..self },
            SyncPart::RoleBindings => SyncSummary { role_bindings: c, ..self },
            SyncPart::Webhooks => SyncSummary { webhooks: c, ..self },
            SyncPart::Workflows => SyncSummary { workflows: c, ..self },
            SyncPart::ExecutionPolicies => SyncSummary { execution_policies: c, ..self },
            SyncPart::ResultPolicies => SyncSummary { result_policies: c, ..self },
            SyncPart::NotificationPolicies => SyncSummary { notification_policies: c, ..self },
        }
    }

    fn put(self, part: SyncPart, c: PartCounts) -> (r: SyncSummary)
        ensures
            r == self.with(part, c),
    {
        let mut r = self;
        match part {
            SyncPart::Databases => {
                r.databases = c;
            },
            SyncPart::Users => {
                r.users = c;
            },
            SyncPart::Groups => {
                r.groups = c;
            },
            SyncPart::Roles => {
                r.roles = c;
            },
            SyncPart::RoleBindings => {
                r.role_bindings = c;
            },
            SyncPart::Webhooks => {
                r.webhooks = c;
            },
            SyncPart::Workflows => {
                r.workflows = c;
            },
            SyncPart::ExecutionPolicies => {
                r.execution_policies = c;
            },
            SyncPart::ResultPolicies => {
                r.result_policies = c;
            },
            SyncPart::NotificationPolicies => {
                r.notification_policies = c;
            },
        }
        r
    }
}

/// The summary of nothing.
pub open spec fn no_summary() -> SyncSummary {
    SyncSummary {
        databases: (0, 0),
        users: (0, 0),
        groups: (0, 0),
        roles: (0, 0),
        role_bindings: (0, 0),
        webhooks: (0, 0),
        workflows: (0, 0),
        execution_policies: (0, 0),
        result_policies: (0, 0),
        notification_policies: (0, 0),
    }
}

fn empty_summary() -> (r: SyncSummary)
    ensures
        r == no_summary(),
{
    SyncSummary {
        databases: (0, 0),
        users: (0, 0),
        groups: (0, 0),
        roles: (0, 0),
        role_bindings: (0, 0),
        webhooks: (0, 0),
        workflows: (0, 0),
        execution_policies: (0, 0),
        result_policies: (0, 0),
        notification_policies: (0, 0),
    }
}

/// Due, within the transaction: take the part over.
pub struct Syncing {
    pub part: SyncPart,
    pub summary: SyncSummary,
}

/// Where a transaction that began stands.
pub open spec fn sync_start() -> Syncing {
    Syncing { part: SyncPart::Databases, summary: no_summary() }
}

/// Due, within the transaction: how many records of the limited kind there are
/// now, and how many the licence allows.
pub struct SyncLimit {
    pub what: Limited,
    pub part: SyncPart,
    pub summary: SyncSummary,
}

/// Due: commit the transaction.
pub struct SyncCommit {
    pub summary: SyncSummary,
}

/// Due: roll the transaction back.
pub struct SyncRollback {
    pub error: AppError,
}

/// What a step within the transaction leads to.
pub enum SyncStep {
    /// The next part is taken over.
    Part(Syncing),
    /// The limit on the part is checked.
    Limit(SyncLimit),
    /// All parts are taken over.
    Commit(SyncCommit),
    /// A part failed, or is over its limit.
    Rollback(SyncRollback),
}

/// What follows when a part is done: the next one, or the commit.
pub open spec fn part_done(part: SyncPart, summary: SyncSummary) -> SyncStep {
    match part.following() {
        Some(next) => SyncStep::Part(Syncing { part: next, summary }),
        None => SyncStep::Commit(SyncCommit { summary }),
    }
}

fn go_on(part: SyncPart, summary: SyncSummary) -> (r: SyncStep)
    ensures
        r == part_done(part, summary),
{
    match part.next() {
        Some(next) => SyncStep::Part(Syncing { part: next, summary }),
        None => SyncStep::Commit(SyncCommit { summary }),
    }
}

impl Syncing {
    /// Takes the counts of the part, or why it failed. A failure ends the
    /// transaction; a part with a limit is counted before the next.
    pub fn taken(self, outcome: Result<PartCounts, AppError>) -> (r: SyncStep)
        ensures
            r == match outcome {
                Err(e) => SyncStep::Rollback(SyncRollback { error: e }),
                Ok(c) => match self.part.limits() {
                    Some(what) => SyncStep::Limit(
                        SyncLimit {
                            what,
                            part: self.part,
                            summary: self.summary.with(self.part, c),
                        },
                    ),
                    None => part_done(self.part, self.summary.with(self.part, c)),
                },
            },
    {
        match outcome {
            Err(e) => SyncStep::Rollback(SyncRollback { error: e }),
            Ok(c) => {
                let summary = self.summary.put(self.part, c);
                match self.part.limited() {
                    Some(what) => SyncStep::Limit(SyncLimit { what, part: self.part, summary }),
                    None => go_on(self.part, summary),
                }
            },
        }
    }
}

impl SyncLimit {
    /// Takes how many records there are, or why they could not be counted, and
    /// how many are allowed.
    pub fn counted(self, have: Result<u32, AppError>, max: u32) -> (r: SyncStep)
        ensures
            match have {
                Err(e) => r == SyncStep::Rollback(SyncRollback { error: e }),
                Ok(n) => if n > max {
                    r matches SyncStep::Rollback(f) && f.error@ == ErrorView::Validation(
                        limit_text(self.what, max, n),
                    )
                } else {
                    r == part_done(self.part, self.summary)
                },
            },
    {
        match have {
            Err(e) => SyncStep::Rollback(SyncRollback { error: e }),
            Ok(n) => match check_limit(self.what, n, max) {
                Err(e) => SyncStep::Rollback(SyncRollback { error: e }),
                Ok(_) => go_on(self.part, self.summary),
            },
        }
    }
}

/// Due, outside the transaction: reload the notifier.
pub struct SyncReload {
    pub summary: SyncSummary,
}

impl SyncCommit {
    /// Takes the answer to the commit. Where it failed that is the answer, and
    /// nothing is reloaded.
    pub fn committed(self, reply: Result<(), AppError>) -> (r: Result<SyncReload, AppError>)
        ensures
            r == match reply {
                Err(e) => Err::<SyncReload, AppError>(e),
                Ok(_) => Ok::<SyncReload, AppError>(SyncReload { summary: self.summary }),
            },
    {
        match reply {
            Err(e) => Err(e),
            Ok(_) => Ok(SyncReload { summary: self.summary }),
        }
    }
}

impl SyncReload {
    /// Takes the answer to the reloading; the summary is given whatever it was.
    pub fn reloaded(self, _reply: Result<(), AppError>) -> (r: SyncSummary)
        ensures
            r == self.summary,
    {
        self.summary
    }
}

impl SyncRollback {
    /// Takes the answer to the rollback; what failed before is told whatever it
    /// was.
    pub fn rolled_back(self, _reply: Result<(), AppError>) -> (r: AppError)
        ensures
            r == self.error,
    {
        self.error
    }
}

/// The answers that a part meets.
pub struct PartReplies {
    pub taken: Result<PartCounts, AppError>,
    pub have: Result<u32, AppError>,
    pub max: u32,
}

/// Why a part ends the transaction.
pub open spec fn part_failure(part: SyncPart, replies: PartReplies) -> Option<ErrorView> {
    match replies.taken {
        Err(e) => Some(e@),
        Ok(_) => match part.limits() {
            None => None,
            Some(what) => match replies.have {
                Err(e) => Some(e@),
                Ok(n) => if n > replies.max {
                    Some(ErrorView::Validation(limit_text(what, replies.max, n)))
                } else {
                    None
                },
            },
        },
    }
}

/// How the transaction ends.
pub enum SyncEnd {
    Commit(SyncSummary),
    Rollback(ErrorView),
}

/// How the transaction ends from the part at hand on, given the answers that
/// the parts meet, by their places: as `taken` and `counted` lead from part to
/// part.
pub open spec fn sync_end(s: Syncing, replies: Seq<PartReplies>) -> SyncEnd
    decreases SyncPart::in_order().len() - s.part.place(),
{
    let own = replies[s.part.place()];
    let summary = s.summary.with(s.part, own.taken->Ok_0);
    match part_failure(s.part, own) {
        Some(e) => SyncEnd::Rollback(e),
        None => match s.part.following() {
            Some(next) => sync_end(Syncing { part: next, summary }, replies),
            None => SyncEnd::Commit(summary),
        },
    }
}

// --- roles ---

/// The readings of a role.
pub struct RoleReplies {
    pub permissions: Vec<Result<Permission, String>>,
    pub databases: Vec<NameReply>,
    pub environments: Vec<NameReply>,
}

/// The first permission from `i` on that could not be read.
pub open spec fn first_permission_error(
    permissions: Seq<Result<Permission, String>>,
    role: Seq<char>,
    i: int,
) -> Option<ErrorView>
    decreases permissions.len() - i,
{
    if i < 0 || i >= permissions.len() {
        None
    } else {
        match permissions[i] {
            Err(e) => Some(ErrorView::Validation("role '"@ + role + "': "@ + e@)),
            Ok(_) => first_permission_error(permissions, role, i + 1),
        }
    }
}

/// Whether there is a reading for each permission and each name of the role.
pub open spec fn role_replies_fit(role: RoleInput, replies: RoleReplies) -> bool {
    &&& replies.permissions@.len() == role.permissions@.len()
    &&& replies.databases@.len() == role.databases@.len()
    &&& replies.environments@.len() == role.environments@.len()
}

/// Why a role is refused.
pub open spec fn role_error(role: RoleInput, replies: RoleReplies) -> Option<ErrorView> {
    match first_permission_error(replies.permissions@, role.name@, 0) {
        Some(e) => Some(e),
        None => match first_name_error(role.databases@, replies.databases@, "role db: "@, 0) {
            Some(e) => Some(e),
            None => first_name_error(role.environments@, replies.environments@, "role env: "@, 0),
        },
    }
}

/// Whether `d` is the role that the configuration describes.
pub open spec fn role_of(d: RoleDefinition, role: RoleInput, replies: RoleReplies) -> bool {
    &&& d.name == role.name
    &&& d.permissions@.len() == replies.permissions@.len()
    &&& forall|k: int|
        0 <= k < d.permissions@.len() ==> replies.permissions@[k] == Ok::<Permission, String>(
            #[trigger] d.permissions@[k],
        )
    &&& texts(d.databases@) == scope_names(role.databases@, replies.databases@)
    &&& texts(d.environments@) == scope_names(role.environments@, replies.environments@)
}

fn parse_role(role: &RoleInput, replies: &RoleReplies) -> (r: Result<RoleDefinition, AppError>)
    requires
        role_replies_fit(*role, *replies),
    ensures
        match r {
            Err(e) => role_error(*role, *replies) == Some(e@),
            Ok(d) => role_error(*role, *replies) is None && role_of(d, *role, *replies),
        },
{
    let mut permissions: Vec<Permission> = Vec::new();
    let n: usize = replies.permissions.len();
    let mut i: usize = 0;
    while i < n
        invariant
            i <= n,
            n == replies.permissions@.len(),
            permissions@.len() == i,
            forall|k: int|
                0 <= k < i ==> replies.permissions@[k] == Ok::<Permission, String>(
                    #[trigger] permissions@[k],
                ),
            first_permission_error(replies.permissions@, role.name@, 0) == first_permission_error(
                replies.permissions@,
                role.name@,
                i as int,
            ),
        decreases n - i,
    {
        match &replies.permissions[i] {
            Err(e) => {
                return Err(
                    AppError::Validation(
                        concat4("role '", role.name.as_str(), "': ", e.as_str()),
                    ),
                );
            },
            Ok(p) => {
                permissions.push(*p);
            },
        }
        i += 1;
    }
    let databases = match accept_scope(&role.databases, &replies.databases, "role db: ") {
        Err(e) => {
            return Err(e);
        },
        Ok(v) => v,
    };
    let environments = match accept_scope(
        &role.environments,
        &replies.environments,
        "role env: ",
    ) {
        Err(e) => {
            return Err(e);
        },
        Ok(v) => v,
    };
    Ok(RoleDefinition { name: role.name.clone(), permissions, databases, environments })
}

/// The place of the first refused role from `i` on; their number where none is.
pub open spec fn first_bad_role(roles: Seq<RoleInput>, replies: Seq<RoleReplies>, i: int) -> int
    decreases roles.len() - i,
{
    if i < 0 || i >= roles.len() || role_error(roles[i], replies[i]) is Some {
        i
    } else {
        first_bad_role(roles, replies, i + 1)
    }
}

/// What is created, and the error that stops it where there is one.
pub struct RolePlan {
    pub create: Vec<RoleDefinition>,
    pub failure: Option<AppError>,
}

/// Whether a plan creates the roles up to the first that is refused.
pub open spec fn creates_roles(plan: RolePlan, roles: Seq<RoleInput>, replies: Seq<RoleReplies>) -> bool {
    let k = first_bad_role(roles, replies, 0);
    &&& plan.create@.len() == k
    &&& forall|j: int| 0 <= j < k ==> role_of(#[trigger] plan.create@[j], roles[j], replies[j])
    &&& if k < roles.len() {
        plan.failure is Some && role_error(roles[k], replies[k]) == Some(plan.failure->0@)
    } else {
        plan.failure is None
    }
}

// --- role bindings ---

/// A role binding to be created.
pub struct RoleBinding {
    pub id: String,
    pub role: String,
    pub subjects: Vec<String>,
    pub groups: Vec<String>,
}

/// Whether `b` is the binding that the configuration describes at place `i`.
pub open spec fn binding_of(b: RoleBinding, input: RoleBindingInput, i: int) -> bool {
    &&& b.id@ == "rb-"@ + decimal(i as nat)
    &&& b.role == input.role
    &&& texts(b.subjects@) == texts(input.subjects@)
    &&& texts(b.groups@) == texts(input.groups@)
}

// --- users ---

/// Whether `u` is the user that the configuration describes; any status but
/// `suspended` is active.
pub open spec fn user_of(u: User, input: UserInput, now: Timestamp) -> bool {
    &&& u.id == input.id
    &&& u.display_name is None
    &&& u.email is None
    &&& u.groups@.len() == 0
    &&& u.roles@.len() == 0
    &&& u.status == if input.status@ == "suspended"@ {
        UserStatus::Suspended
    } else {
        UserStatus::Active
    }
    &&& u.last_seen_at is None
    &&& u.created_at == now
    &&& u.updated_at == now
}

// --- webhooks ---

/// Why a webhook is refused.
pub open spec fn webhook_error(wh: WebhookInput, reachable: Result<(), String>) -> Option<ErrorView> {
    match reachable {
        Err(e) => Some(ErrorView::Validation("webhook '"@ + wh.id@ + "': "@ + e@)),
        Ok(_) => if wh.format@ == "slack"@ || wh.format@ == "generic"@ {
            None
        } else {
            Some(ErrorView::Validation("webhook: unknown format '"@ + wh.format@ + "'"@))
        },
    }
}

/// The first error among webhooks from `i` on.
pub open spec fn first_webhook_error(
    webhooks: Seq<WebhookInput>,
    reachable: Seq<Result<(), String>>,
    i: int,
) -> Option<ErrorView>
    decreases webhooks.len() - i,
{
    if i < 0 || i >= webhooks.len() {
        None
    } else {
        match webhook_error(webhooks[i], reachable[i]) {
            Some(e) => Some(e),
            None => first_webhook_error(webhooks, reachable, i + 1),
        }
    }
}

/// Whether `w` is the webhook that the configuration describes.
pub open spec fn webhook_of(w: Webhook, input: WebhookInput, now: Timestamp) -> bool {
    &&& w.id == input.id
    &&& w.url == input.url
    &&& texts(w.events@) == texts(input.events@)
    &&& w.format == if input.format@ == "slack"@ {
        WebhookFormat::Slack
    } else {
        WebhookFormat::Generic
    }
    &&& w.secret == input.secret
    &&& w.status == WebhookStatus::Active
    &&& w.created_at == Some(now)
    &&& w.updated_at == Some(now)
}

/// How many identifiers of an earlier numbering are cleared away.
pub const LEGACY_IDS: usize = 100;

/// Whether `ids` are the identifiers of an earlier numbering.
pub open spec fn legacy_numbering(ids: Seq<String>, prefix: Seq<char>) -> bool {
    &&& ids.len() == LEGACY_IDS
    &&& forall|k: int| 0 <= k < ids.len() ==> (#[trigger] ids[k])@ == prefix + decimal(k as nat)
}

fn legacy_ids(prefix: &str) -> (r: Vec<String>)
    ensures
        legacy_numbering(r@, prefix@),
{
    let mut out: Vec<String> = Vec::new();
    let mut i: usize = 0;
    while i < LEGACY_IDS
        invariant
            i <= LEGACY_IDS,
            out@.len() == i,
            forall|k: int| 0 <= k < i ==> (#[trigger] out@[k])@ == prefix@ + decimal(k as nat),
        decreases LEGACY_IDS - i,
    {
        out.push(concat2(prefix, decimal_text(i as u64).as_str()));
        i += 1;
    }
    out
}

/// Due: delete what came from the configuration and what has an identifier of
/// an earlier numbering, then create. A failure to delete the latter stops
/// nothing.
pub struct WebhookPlan {
    pub legacy_ids: Vec<String>,
    pub create: Vec<Webhook>,
}

// --- workflows ---

/// The readings of a workflow.
pub struct WorkflowReplies {
    pub names: NamePair,
    pub operations: Vec<Result<Operation, String>>,
}

/// The first operation from `i` on that could not be read.
pub open spec fn first_operation_error(
    operations: Seq<Result<Operation, String>>,
    id: Seq<char>,
    i: int,
) -> Option<ErrorView>
    decreases operations.len() - i,
{
    if i < 0 || i >= operations.len() {
        None
    } else {
        match operations[i] {
            Err(e) => Some(ErrorView::Validation("workflow "@ + id + ": "@ + e@)),
            Ok(_) => first_operation_error(operations, id, i + 1),
        }
    }
}

/// Whether the kind of an approver is known.
pub open spec fn known_selector(t: Seq<char>) -> bool {
    t == "role"@ || t == "group"@ || t == "user"@
}

/// The first approver from `i` on of an unknown kind.
pub open spec fn first_approver_error(approvers: Seq<ApproverInput>, i: int) -> Option<ErrorView>
    decreases approvers.len() - i,
{
    if i < 0 || i >= approvers.len() {
        None
    } else if !known_selector(approvers[i].selector_type@) {
        Some(
            ErrorView::Validation(
                "workflow step: unknown selector_type '"@ + approvers[i].selector_type@ + "'"@,
            ),
        )
    } else {
        first_approver_error(approvers, i + 1)
    }
}

/// Why a step is refused.
pub open spec fn step_error(step: WorkflowStepInput, database: Seq<char>, environment: Seq<char>) -> Option<
    ErrorView,
> {
    if step.mode@ != "any"@ && step.mode@ != "all"@ {
        Some(
            ErrorView::Validation(
                "workflow step: unknown mode '"@ + step.mode@ + "' (expected 'any' or 'all')"@,
            ),
        )
    } else {
        match first_approver_error(step.approvers@, 0) {
            Some(e) => Some(e),
            None => if step.approvers@.len() == 0 {
                Some(
                    ErrorView::Validation(
                        "workflow "@ + database + "/"@ + environment
                            + ": step has no valid approvers"@,
                    ),
                )
            } else {
                None
            },
        }
    }
}

/// The first error among steps from `i` on.
pub open spec fn first_step_error(
    steps: Seq<WorkflowStepInput>,
    database: Seq<char>,
    environment: Seq<char>,
    i: int,
) -> Option<ErrorView>
    decreases steps.len() - i,
{
    if i < 0 || i >= steps.len() {
        None
    } else {
        match step_error(steps[i], database, environment) {
            Some(e) => Some(e),
            None => first_step_error(steps, database, environment, i + 1),
        }
    }
}

/// Whether there is a reading for each operation of the workflow.
pub open spec fn workflow_replies_fit(wf: WorkflowInput, replies: WorkflowReplies) -> bool {
    replies.operations@.len() == wf.operations@.len()
}

/// Why a workflow is refused.
pub open spec fn workflow_error(id: Seq<char>, wf: WorkflowInput, replies: WorkflowReplies) -> Option<
    ErrorView,
> {
    match name_error(wf.database@, replies.names.database, "workflow db: "@) {
        Some(e) => Some(e),
        None => match name_error(wf.environment@, replies.names.environment, "workflow env: "@) {
            Some(e) => Some(e),
            None => match first_operation_error(replies.operations@, id, 0) {
                Some(e) => Some(e),
                None => first_step_error(wf.steps@, wf.database@, wf.environment@, 0),
            },
        },
    }
}

/// Whether `g` is the approver that the configuration describes.
pub open spec fn approver_of(g: ApproverGroup, a: ApproverInput) -> bool {
    &&& g.min == a.min
    &&& g.selector == if a.selector_type@ == "role"@ {
        Selector::Role(a.value)
    } else if a.selector_type@ == "group"@ {
        Selector::Group(a.value)
    } else {
        Selector::User(a.value)
    }
}

/// Whether `s` is the step that the configuration describes.
pub open spec fn step_of(s: WorkflowStep, input: WorkflowStepInput) -> bool {
    &&& s.mode == if input.mode@ == "any"@ {
        WorkflowStepMode::Any
    } else {
        WorkflowStepMode::All
    }
    &&& s.approvers@.len() == input.approvers@.len()
    &&& forall|k: int|
        0 <= k < s.approvers@.len() ==> approver_of(#[trigger] s.approvers@[k], input.approvers@[k])
}

/// Whether `w` is the workflow that the configuration describes.
pub open spec fn workflow_of(w: Workflow, id: Seq<char>, wf: WorkflowInput, replies: WorkflowReplies) -> bool {
    &&& w.id@ == id
    &&& w.database@ == accepted_name(wf.database@, replies.names.database)
    &&& w.environment@ == accepted_name(wf.environment@, replies.names.environment)
    &&& w.operations@.len() == replies.operations@.len()
    &&& forall|k: int|
        0 <= k < w.operations@.len() ==> replies.operations@[k] == Ok::<Operation, String>(
            #[trigger] w.operations@[k],
        )
    &&& w.auto_approve is None
    &&& w.steps@.len() == wf.steps@.len()
    &&& forall|k: int| 0 <= k < w.steps@.len() ==> step_of(#[trigger] w.steps@[k], wf.steps@[k])
    &&& w.require_reason == wf.require_reason
    &&& w.allow_self_approve == wf.allow_self_approve
    &&& w.allow_same_approver_across_steps == wf.allow_same_approver_across_steps
    &&& w.explain == wf.explain
    &&& w.pending_ttl_secs == wf.pending_ttl_secs
    &&& w.statement_timeout_secs == wf.statement_timeout_secs
    &&& w.approval_ttl_secs is None
    &&& w.created_at is None
    &&& w.updated_at is None
}

fn parse_step(step: &WorkflowStepInput, database: &str, environment: &str) -> (r: Result<
    WorkflowStep,
    AppError,
>)
    ensures
        match r {
            Err(e) => step_error(*step, database@, environment@) == Some(e@),
            Ok(s) => step_error(*step, database@, environment@) is None && step_of(s, *step),
        },
{
    let mode: WorkflowStepMode = if same_text(step.mode.as_str(), "any") {
        WorkflowStepMode::Any
    } else if same_text(step.mode.as_str(), "all") {
        WorkflowStepMode::All
    } else {
        return Err(
            AppError::Validation(
                concat3(
                    "workflow step: unknown mode '",
                    step.mode.as_str(),
                    "' (expected 'any' or 'all')",
                ),
            ),
        );
    };
    let mut approvers: Vec<ApproverGroup> = Vec::new();
    let n: usize = step.approvers.len();
    let mut i: usize = 0;
    while i < n
        invariant
            i <= n,
            n == step.approvers@.len(),
            step.mode@ == "any"@ || step.mode@ == "all"@,
            approvers@.len() == i,
            forall|k: int| 0 <= k < i ==> approver_of(#[trigger] approvers@[k], step.approvers@[k]),
            first_approver_error(step.approvers@, 0) == first_approver_error(
                step.approvers@,
                i as int,
            ),
        decreases n - i,
    {
        let a = &step.approvers[i];
        let selector: Selector = if same_text(a.selector_type.as_str(), "role") {
            Selector::Role(a.value.clone())
        } else if same_text(a.selector_type.as_str(), "group") {
            Selector::Group(a.value.clone())
        } else if same_text(a.selector_type.as_str(), "user") {
            Selector::User(a.value.clone())
        } else {
            return Err(
                AppError::Validation(
                    concat3(
                        "workflow step: unknown selector_type '",
                        a.selector_type.as_str(),
                        "'",
                    ),
                ),
            );
        };
        approvers.push(ApproverGroup { selector, min: a.min });
        i += 1;
    }
    if approvers.len() == 0 {
        return Err(
            AppError::Validation(
                concat5(
                    "workflow ",
                    database,
                    "/",
                    environment,
                    ": step has no valid approvers",
                ),
            ),
        );
    }
    Ok(WorkflowStep { approvers, mode })
}

fn parse_operations(operations: &Vec<Result<Operation, String>>, id: &str) -> (r: Result<
    Vec<Operation>,
    AppError,
>)
    ensures
        match r {
            Err(e) => first_operation_error(operations@, id@, 0) == Some(e@),
            Ok(v) => {
                &&& first_operation_error(operations@, id@, 0) is None
                &&& v@.len() == operations@.len()
                &&& forall|k: int|
                    0 <= k < v@.len() ==> operations@[k] == Ok::<Operation, String>(
                        #[trigger] v@[k],
                    )
            },
        },
{
    let mut out: Vec<Operation> = Vec::new();
    let n: usize = operations.len();
    let mut i: usize = 0;
    while i < n
        invariant
            i <= n,
            n == operations@.len(),
            out@.len() == i,
            forall|k: int|
                0 <= k < i ==> operations@[k] == Ok::<Operation, String>(#[trigger] out@[k]),
            first_operation_error(operations@, id@, 0) == first_operation_error(
                operations@,
                id@,
                i as int,
            ),
        decreases n - i,
    {
        match &operations[i] {
            Err(e) => {
                return Err(AppError::Validation(concat4("workflow ", id, ": ", e.as_str())));
            },
            Ok(op) => {
                out.push(*op);
            },
        }
        i += 1;
    }
    Ok(out)
}

/// Due: delete what came from the configuration and what has an identifier of
/// an earlier numbering, then create. A failure to delete the latter stops
/// nothing.
pub struct WorkflowPlan {
    pub legacy_ids: Vec<String>,
    pub create: Vec<Workflow>,
}

/// The identifier of the workflow at a place.
pub open spec fn workflow_id(i: int) -> Seq<char> {
    "wf-"@ + decimal(i as nat)
}

/// The first error among workflows from `i` on.
pub open spec fn first_workflow_error(
    workflows: Seq<WorkflowInput>,
    replies: Seq<WorkflowReplies>,
    i: int,
) -> Option<ErrorView>
    decreases workflows.len() - i,
{
    if i < 0 || i >= workflows.len() {
        None
    } else {
        match workflow_error(workflow_id(i), workflows[i], replies[i]) {
            Some(e) => Some(e),
            None => first_workflow_error(workflows, replies, i + 1),
        }
    }
}

// --- execution policies ---

/// The text before an error of the policy at a place.
pub open spec fn policy_prefix(kind: Seq<char>, i: int, part: Seq<char>) -> Seq<char> {
    kind + "["@ + decimal(i as nat) + part
}

/// Why the names of a policy are refused.
pub open spec fn scope_error(
    database: Seq<char>,
    environment: Seq<char>,
    names: NamePair,
    kind: Seq<char>,
    i: int,
) -> Option<ErrorView> {
    match name_error(database, names.database, policy_prefix(kind, i, "] db: "@)) {
        Some(e) => Some(e),
        None => name_error(environment, names.environment, policy_prefix(kind, i, "] env: "@)),
    }
}

fn accept_pair(
    database: &String,
    environment: &String,
    names: &NamePair,
    kind: &str,
    i: usize,
) -> (r: Result<(String, String), AppError>)
    ensures
        match r {
            Err(e) => scope_error(database@, environment@, *names, kind@, i as int) == Some(e@),
            Ok(p) => {
                &&& scope_error(database@, environment@, *names, kind@, i as int) is None
                &&& p.0@ == accepted_name(database@, names.database)
                &&& p.1@ == accepted_name(environment@, names.environment)
            },
        },
{
    let at = decimal_text(i as u64);
    let db = match accept_name(
        database,
        &names.database,
        concat4(kind, "[", at.as_str(), "] db: ").as_str(),
    ) {
        Err(e) => {
            return Err(e);
        },
        Ok(s) => s,
    };
    let env = match accept_name(
        environment,
        &names.environment,
        concat4(kind, "[", at.as_str(), "] env: ").as_str(),
    ) {
        Err(e) => {
            return Err(e);
        },
        Ok(s) => s,
    };
    Ok((db, env))
}

/// The first error among execution policies from `i` on.
pub open spec fn first_execution_policy_error(
    policies: Seq<ExecutionPolicyInput>,
    names: Seq<NamePair>,
    i: int,
) -> Option<ErrorView>
    decreases policies.len() - i,
{
    if i < 0 || i >= policies.len() {
        None
    } else {
        match scope_error(
            policies[i].database@,
            policies[i].environment@,
            names[i],
            "execution_policy"@,
            i,
        ) {
            Some(e) => Some(e),
            None => first_execution_policy_error(policies, names, i + 1),
        }
    }
}

/// Whether `p` is the policy that the configuration describes at place `i`, with
/// the defaults where it is silent.
pub open spec fn execution_policy_of(
    p: ExecutionPolicy,
    input: ExecutionPolicyInput,
    names: NamePair,
    defaults: ExecutionPolicy,
    i: int,
) -> bool {
    &&& p.id@ == "ep-"@ + decimal(i as nat)
    &&& p.database@ == accepted_name(input.database@, names.database)
    &&& p.environment@ == accepted_name(input.environment@, names.environment)
    &&& p.max_executions == match input.max_executions {
        Some(v) => v,
        None => defaults.max_executions,
    }
    &&& p.execution_window_secs == match input.execution_window_secs {
        Some(v) => v,
        None => defaults.execution_window_secs,
    }
    &&& p.retry_on_failure == match input.retry_on_failure {
        Some(v) => v,
        None => defaults.retry_on_failure,
    }
    &&& p.statement_timeout_secs == match input.statement_timeout_secs {
        Some(v) => v,
        None => defaults.statement_timeout_secs,
    }
    &&& p.max_statement_timeout_secs == match input.max_statement_timeout_secs {
        Some(v) => v,
        None => defaults.max_statement_timeout_secs,
    }
    &&& p.max_rows == input.max_rows
    &&& p.migration_lease_duration_secs == input.migration_lease_duration_secs
    &&& p.migration_statement_timeout_secs == input.migration_statement_timeout_secs
    &&& p.created_at is None
    &&& p.updated_at is None
}

/// Due: check each policy.
pub struct ExecutionPolicyDrafts {
    pub policies: Vec<ExecutionPolicy>,
}

/// Due: delete what came from the configuration and what has an identifier of
/// an earlier numbering, then create. A failure to delete the latter stops
/// nothing.
pub struct ExecutionPolicyPlan {
    pub legacy_ids: Vec<String>,
    pub create: Vec<ExecutionPolicy>,
}

/// The first policy from `i` on that a check refused.
pub open spec fn first_check_error(checks: Seq<Result<(), String>>, i: int) -> Option<ErrorView>
    decreases checks.len() - i,
{
    if i < 0 || i >= checks.len() {
        None
    } else {
        match checks[i] {
            Err(e) => Some(
                ErrorView::Validation(policy_prefix("execution_policy"@, i, "]: "@) + e@),
            ),
            Ok(_) => first_check_error(checks, i + 1),
        }
    }
}

impl ExecutionPolicyDrafts {
    /// Takes the checks of the policies, one for each, in order.
    pub fn checked(self, checks: &Vec<Result<(), String>>) -> (r: Result<
        ExecutionPolicyPlan,
        AppError,
    >)
        requires
            checks@.len() == self.policies@.len(),
        ensures
            match r {
                Err(e) => first_check_error(checks@, 0) == Some(e@),
                Ok(plan) => {
                    &&& first_check_error(checks@, 0) is None
                    &&& plan.create == self.policies
                    &&& legacy_numbering(plan.legacy_ids@, "config-ep-"@)
                },
            },
    {
        let n: usize = checks.len();
        let mut i: usize = 0;
        while i < n
            invariant
                i <= n,
                n == checks@.len(),
                first_check_error(checks@, 0) == first_check_error(checks@, i as int),
            decreases n - i,
        {
            match &checks[i] {
                Err(e) => {
                    let at = decimal_text(i as u64);
                    return Err(
                        AppError::Validation(
                            concat5("execution_policy", "[", at.as_str(), "]: ", e.as_str()),
                        ),
                    );
                },
                Ok(_) => {},
            }
            i += 1;
        }
        Ok(
            ExecutionPolicyPlan { legacy_ids: legacy_ids("config-ep-"), create: self.policies },
        )
    }
}

// --- result policies ---

/// The readings of a result policy.
pub struct ResultPolicyReplies {
    pub names: NamePair,
    pub access: Vec<Result<Selector, String>>,
}

/// The first selector from `k` on of the policy at place `i` that could not be
/// read.
pub open spec fn first_access_error(access: Seq<Result<Selector, String>>, i: int, k: int) -> Option<
    ErrorView,
>
    decreases access.len() - k,
{
    if k < 0 || k >= access.len() {
        None
    } else {
        match access[k] {
            Err(e) => Some(
                ErrorView::Validation(policy_prefix("result_policy"@, i, "].access: "@) + e@),
            ),
            Ok(_) => first_access_error(access, i, k + 1),
        }
    }
}

/// The first error among result policies from `i` on.
pub open spec fn first_result_policy_error(
    policies: Seq<ResultPolicyInput>,
    replies: Seq<ResultPolicyReplies>,
    i: int,
) -> Option<ErrorView>
    decreases policies.len() - i,
{
    if i < 0 || i >= policies.len() {
        None
    } else {
        match scope_error(
            policies[i].database@,
            policies[i].environment@,
            replies[i].names,
            "result_policy"@,
            i,
        ) {
            Some(e) => Some(e),
            None => match first_access_error(replies[i].access@, i, 0) {
                Some(e) => Some(e),
                None => first_result_policy_error(policies, replies, i + 1),
            },
        }
    }
}

/// Whether `p` is the policy that the configuration describes at place `i`; an
/// unknown delivery means both.
pub open spec fn result_policy_of(
    p: ResultPolicy,
    input: ResultPolicyInput,
    replies: ResultPolicyReplies,
    i: int,
) -> bool {
    &&& p.id@ == "rp-"@ + decimal(i as nat)
    &&& p.database@ == accepted_name(input.database@, replies.names.database)
    &&& p.environment@ == accepted_name(input.environment@, replies.names.environment)
    &&& p.retention_days == input.retention_days
    &&& p.delivery_mode == if input.delivery_mode@ == "store_only"@ {
        DeliveryMode::StoreOnly
    } else if input.delivery_mode@ == "stream"@ {
        DeliveryMode::Stream
    } else {
        DeliveryMode::Both
    }
    &&& p.access@.len() == replies.access@.len()
    &&& forall|k: int|
        0 <= k < p.access@.len() ==> replies.access@[k] == Ok::<Selector, String>(
            #[trigger] p.access@[k],
        )
    &&& p.created_at is None
    &&& p.updated_at is None
}

fn parse_access(access: &Vec<Result<Selector, String>>, i: usize) -> (r: Result<
    Vec<Selector>,
    AppError,
>)
    ensures
        match r {
            Err(e) => first_access_error(access@, i as int, 0) == Some(e@),
            Ok(v) => {
                &&& first_access_error(access@, i as int, 0) is None
                &&& v@.len() == access@.len()
                &&& forall|k: int|
                    0 <= k < v@.len() ==> access@[k] == Ok::<Selector, String>(#[trigger] v@[k])
            },
        },
{
    let mut out: Vec<Selector> = Vec::new();
    let n: usize = access.len();
    let mut k: usize = 0;
    while k < n
        invariant
            k <= n,
            n == access@.len(),
            out@.len() == k,
            forall|j: int| 0 <= j < k ==> access@[j] == Ok::<Selector, String>(#[trigger] out@[j]),
            first_access_error(access@, i as int, 0) == first_access_error(
                access@,
                i as int,
                k as int,
            ),
        decreases n - k,
    {
        match &access[k] {
            Err(e) => {
                let at = decimal_text(i as u64);
                return Err(
                    AppError::Validation(
                        concat5("result_policy", "[", at.as_str(), "].access: ", e.as_str()),
                    ),
                );
            },
            Ok(s) => {
                out.push(s.copy());
            },
        }
        k += 1;
    }
    Ok(out)
}

// --- notification policies ---

/// The first error among notification policies from `i` on.
pub open spec fn first_notification_policy_error(
    policies: Seq<NotificationPolicyInput>,
    names: Seq<NamePair>,
    i: int,
) -> Option<ErrorView>
    decreases policies.len() - i,
{
    if i < 0 || i >= policies.len() {
        None
    } else {
        match scope_error(
            policies[i].database@,
            policies[i].environment@,
            names[i],
            "notification_policy"@,
            i,
        ) {
            Some(e) => Some(e),
            None => first_notification_policy_error(policies, names, i + 1),
        }
    }
}

/// Whether `p` is the policy that the configuration describes at place `i`.
pub open spec fn notification_policy_of(
    p: NotificationPolicy,
    input: NotificationPolicyInput,
    names: NamePair,
    i: int,
) -> bool {
    &&& p.id@ == "np-"@ + decimal(i as nat)
    &&& p.database@ == accepted_name(input.database@, names.database)
    &&& p.environment@ == accepted_name(input.environment@, names.environment)
    &&& texts(p.webhooks@) == texts(input.webhooks@)
    &&& texts(p.events@) == texts(input.events@)
}

impl SyncConfig {
    /// Takes the answer to the beginning of the transaction. Where it did not
    /// begin nothing is taken over; else the first part is.
    pub fn sync_all(&self, begun: Result<(), AppError>) -> (r: Result<Syncing, AppError>)
        ensures
            match begun {
                Err(e) => r == Err::<Syncing, AppError>(e),
                Ok(_) => r matches Ok(s) && s == sync_start(),
            },
    {
        match begun {
            Err(e) => Err(e),
            Ok(_) => Ok(Syncing { part: SyncPart::Databases, summary: empty_summary() }),
        }
    }

    /// What is registered after the databases of the configuration were
    /// deleted, given the readings of each entry.
    pub fn sync_databases(&self, names: &Vec<NamePair>) -> (r: DatabasePlan)
        ensures
            registers(r, names@),
    {
        let mut register: Vec<DatabaseEntry> = Vec::new();
        let n: usize = names.len();
        let mut i: usize = 0;
        while i < n
            invariant
                i <= n,
                n == names@.len(),
                register@.len() == i,
                forall|j: int|
                    #![trigger register@[j]]
                    0 <= j < i ==> names@[j].database == Ok::<String, String>(register@[j].name)
                        && names@[j].environment == Ok::<String, String>(register@[j].environment),
                first_bad_entry(names@, 0) == first_bad_entry(names@, i as int),
            decreases n - i,
        {
            match (&names[i].database, &names[i].environment) {
                (Ok(name), Ok(environment)) => {
                    register.push(
                        DatabaseEntry { name: name.clone(), environment: environment.clone() },
                    );
                },
                (Err(e), _) => {
                    return DatabasePlan {
                        register,
                        failure: Some(
                            AppError::Validation(concat2("database name: ", e.as_str())),
                        ),
                    };
                },
                (_, Err(e)) => {
                    return DatabasePlan {
                        register,
                        failure: Some(AppError::Validation(concat2("environment: ", e.as_str()))),
                    };
                },
            }
            i += 1;
        }
        DatabasePlan { register, failure: None }
    }

    /// The users that are stored after those of the configuration were deleted.
    pub fn sync_users(&self, users: &Vec<UserInput>, now: Timestamp) -> (r: Vec<User>)
        ensures
            r@.len() == users@.len(),
            forall|k: int| 0 <= k < r@.len() ==> user_of(#[trigger] r@[k], users@[k], now),
    {
        let mut out: Vec<User> = Vec::new();
        let n: usize = users.len();
        let mut i: usize = 0;
        while i < n
            invariant
                i <= n,
                n == users@.len(),
                out@.len() == i,
                forall|k: int| 0 <= k < i ==> user_of(#[trigger] out@[k], users@[k], now),
            decreases n - i,
        {
            let status: UserStatus = if same_text(users[i].status.as_str(), "suspended") {
                UserStatus::Suspended
            } else {
                UserStatus::Active
            };
            out.push(
                User {
                    id: users[i].id.clone(),
                    display_name: None,
                    email: None,
                    groups: Vec::new(),
                    roles: Vec::new(),
                    status,
                    last_seen_at: None,
                    created_at: now,
                    updated_at: now,
                },
            );
            i += 1;
        }
        out
    }

    /// What is created after the roles of the configuration were deleted.
    pub fn sync_roles(&self, roles: &Vec<RoleInput>, replies: &Vec<RoleReplies>) -> (r: RolePlan)
        requires
            replies@.len() == roles@.len(),
            forall|k: int|
                0 <= k < roles@.len() ==> role_replies_fit(#[trigger] roles@[k], replies@[k]),
        ensures
            creates_roles(r, roles@, replies@),
    {
        let mut create: Vec<RoleDefinition> = Vec::new();
        let n: usize = roles.len();
        let mut i: usize = 0;
        while i < n
            invariant
                i <= n,
                n == roles@.len(),
                n == replies@.len(),
                forall|k: int|
                    0 <= k < roles@.len() ==> role_replies_fit(#[trigger] roles@[k], replies@[k]),
                create@.len() == i,
                forall|j: int| 0 <= j < i ==> role_of(#[trigger] create@[j], roles@[j], replies@[j]),
                first_bad_role(roles@, replies@, 0) == first_bad_role(roles@, replies@, i as int),
            decreases n - i,
        {
            assert(role_replies_fit(roles@[i as int], replies@[i as int]));
            match parse_role(&roles[i], &replies[i]) {
                Err(e) => {
                    return RolePlan { create, failure: Some(e) };
                },
                Ok(d) => {
                    create.push(d);
                },
            }
            i += 1;
        }
        RolePlan { create, failure: None }
    }

    /// The bindings that are stored after those of the configuration were
    /// deleted.
    pub fn sync_role_bindings(&self, bindings: &Vec<RoleBindingInput>) -> (r: Vec<RoleBinding>)
        ensures
            r@.len() == bindings@.len(),
            forall|k: int| 0 <= k < r@.len() ==> binding_of(#[trigger] r@[k], bindings@[k], k),
    {
        let mut out: Vec<RoleBinding> = Vec::new();
        let n: usize = bindings.len();
        let mut i: usize = 0;
        while i < n
            invariant
                i <= n,
                n == bindings@.len(),
                out@.len() == i,
                forall|k: int| 0 <= k < i ==> binding_of(#[trigger] out@[k], bindings@[k], k),
            decreases n - i,
        {
            out.push(
                RoleBinding {
                    id: concat2("rb-", decimal_text(i as u64).as_str()),
                    role: bindings[i].role.clone(),
                    subjects: copy_texts(&bindings[i].subjects),
                    groups: copy_texts(&bindings[i].groups),
                },
            );
            i += 1;
        }
        out
    }

    /// What replaces the webhooks of the configuration, given for each whether
    /// its address may be called. Nothing is deleted where one is refused.
    pub fn sync_webhooks(
        &self,
        webhooks: &Vec<WebhookInput>,
        reachable: &Vec<Result<(), String>>,
        now: Timestamp,
    ) -> (r: Result<WebhookPlan, AppError>)
        requires
            reachable@.len() == webhooks@.len(),
        ensures
            match r {
                Err(e) => first_webhook_error(webhooks@, reachable@, 0) == Some(e@),
                Ok(plan) => {
                    &&& first_webhook_error(webhooks@, reachable@, 0) is None
                    &&& legacy_numbering(plan.legacy_ids@, "config-wh-"@)
                    &&& plan.create@.len() == webhooks@.len()
                    &&& forall|k: int|
                        0 <= k < plan.create@.len() ==> webhook_of(
                            #[trigger] plan.create@[k],
                            webhooks@[k],
                            now,
                        )
                },
            },
    {
        let mut create: Vec<Webhook> = Vec::new();
        let n: usize = webhooks.len();
        let mut i: usize = 0;
        while i < n
            invariant
                i <= n,
                n == webhooks@.len(),
                n == reachable@.len(),
                create@.len() == i,
                forall|k: int| 0 <= k < i ==> webhook_of(#[trigger] create@[k], webhooks@[k], now),
                first_webhook_error(webhooks@, reachable@, 0) == first_webhook_error(
                    webhooks@,
                    reachable@,
                    i as int,
                ),
            decreases n - i,
        {
            let wh = &webhooks[i];
            match &reachable[i] {
                Err(e) => {
                    return Err(
                        AppError::Validation(
                            concat4("webhook '", wh.id.as_str(), "': ", e.as_str()),
                        ),
                    );
                },
                Ok(_) => {},
            }
            let format: WebhookFormat = if same_text(wh.format.as_str(), "slack") {
                WebhookFormat::Slack
            } else if same_text(wh.format.as_str(), "generic") {
                WebhookFormat::Generic
            } else {
                return Err(
                    AppError::Validation(
                        concat3("webhook: unknown format '", wh.format.as_str(), "'"),
                    ),
                );
            };
            create.push(
                Webhook {
                    id: wh.id.clone(),
                    url: wh.url.clone(),
                    events: copy_texts(&wh.events),
                    format,
                    secret: wh.secret.clone(),
                    status: WebhookStatus::Active,
                    created_at: Some(now),
                    updated_at: Some(now),
                },
            );
            i += 1;
        }
        Ok(WebhookPlan { legacy_ids: legacy_ids("config-wh-"), create })
    }

    /// Turns a workflow of the configuration into a record.
    pub fn parse_workflow(id: &str, wf: &WorkflowInput, replies: &WorkflowReplies) -> (r: Result<
        Workflow,
        AppError,
    >)
        requires
            workflow_replies_fit(*wf, *replies),
        ensures
            match r {
                Err(e) => workflow_error(id@, *wf, *replies) == Some(e@),
                Ok(w) => workflow_error(id@, *wf, *replies) is None && workflow_of(
                    w,
                    id@,
                    *wf,
                    *replies,
                ),
            },
    {
        let database = match accept_name(&wf.database, &replies.names.database, "workflow db: ") {
            Err(e) => {
                return Err(e);
            },
            Ok(s) => s,
        };
        let environment = match accept_name(
            &wf.environment,
            &replies.names.environment,
            "workflow env: ",
        ) {
            Err(e) => {
                return Err(e);
            },
            Ok(s) => s,
        };
        let operations = match parse_operations(&replies.operations, id) {
            Err(e) => {
                return Err(e);
            },
            Ok(v) => v,
        };
        let mut steps: Vec<WorkflowStep> = Vec::new();
        let n: usize = wf.steps.len();
        let mut i: usize = 0;
        while i < n
            invariant
                i <= n,
                n == wf.steps@.len(),
                name_error(wf.database@, replies.names.database, "workflow db: "@) is None,
                name_error(wf.environment@, replies.names.environment, "workflow env: "@) is None,
                first_operation_error(replies.operations@, id@, 0) is None,
                steps@.len() == i,
                forall|k: int| 0 <= k < i ==> step_of(#[trigger] steps@[k], wf.steps@[k]),
                first_step_error(wf.steps@, wf.database@, wf.environment@, 0) == first_step_error(
                    wf.steps@,
                    wf.database@,
                    wf.environment@,
                    i as int,
                ),
            decreases n - i,
        {
            match parse_step(&wf.steps[i], wf.database.as_str(), wf.environment.as_str()) {
                Err(e) => {
                    return Err(e);
                },
                Ok(s) => {
                    steps.push(s);
                },
            }
            i += 1;
        }
        Ok(
            Workflow {
                id: id.to_string(),
                database,
                environment,
                operations,
                auto_approve: None,
                steps,
                require_reason: wf.require_reason,
                allow_self_approve: wf.allow_self_approve,
                allow_same_approver_across_steps: wf.allow_same_approver_across_steps,
                explain: wf.explain,
                pending_ttl_secs: wf.pending_ttl_secs,
                statement_timeout_secs: wf.statement_timeout_secs,
                approval_ttl_secs: None,
                created_at: None,
                updated_at: None,
            },
        )
    }

    /// What replaces the workflows of the configuration. Nothing is deleted
    /// where one is refused.
    pub fn sync_workflows(&self, workflows: &Vec<WorkflowInput>, replies: &Vec<WorkflowReplies>) -> (r:
        Result<WorkflowPlan, AppError>)
        requires
            replies@.len() == workflows@.len(),
            forall|k: int|
                0 <= k < workflows@.len() ==> workflow_replies_fit(
                    #[trigger] workflows@[k],
                    replies@[k],
                ),
        ensures
            match r {
                Err(e) => first_workflow_error(workflows@, replies@, 0) == Some(e@),
                Ok(plan) => {
                    &&& first_workflow_error(workflows@, replies@, 0) is None
                    &&& legacy_numbering(plan.legacy_ids@, "config-wf-"@)
                    &&& plan.create@.len() == workflows@.len()
                    &&& forall|k: int|
                        0 <= k < plan.create@.len() ==> workflow_of(
                            #[trigger] plan.create@[k],
                            workflow_id(k),
                            workflows@[k],
                            replies@[k],
                        )
                },
            },
    {
        let mut create: Vec<Workflow> = Vec::new();
        let n: usize = workflows.len();
        let mut i: usize = 0;
        while i < n
            invariant
                i <= n,
                n == workflows@.len(),
                n == replies@.len(),
                forall|k: int|
                    0 <= k < workflows@.len() ==> workflow_replies_fit(
                        #[trigger] workflows@[k],
                        replies@[k],
                    ),
                create@.len() == i,
                forall|k: int|
                    0 <= k < i ==> workflow_of(
                        #[trigger] create@[k],
                        workflow_id(k),
                        workflows@[k],
                        replies@[k],
                    ),
                first_workflow_error(workflows@, replies@, 0) == first_workflow_error(
                    workflows@,
                    replies@,
                    i as int,
                ),
            decreases n - i,
        {
            let id = concat2("wf-", decimal_text(i as u64).as_str());
            assert(workflow_replies_fit(workflows@[i as int], replies@[i as int]));
            match Self::parse_workflow(id.as_str(), &workflows[i], &replies[i]) {
                Err(e) => {
                    return Err(e);
                },
                Ok(w) => {
                    create.push(w);
                },
            }
            i += 1;
        }
        Ok(WorkflowPlan { legacy_ids: legacy_ids("config-wf-"), create })
    }

    /// The execution policies of the configuration, with the defaults where it
    /// is silent.
    pub fn sync_execution_policies(
        &self,
        policies: &Vec<ExecutionPolicyInput>,
        names: &Vec<NamePair>,
        defaults: &ExecutionPolicy,
    ) -> (r: Result<ExecutionPolicyDrafts, AppError>)
        requires
            names@.len() == policies@.len(),
        ensures
            match r {
                Err(e) => first_execution_policy_error(policies@, names@, 0) == Some(e@),
                Ok(drafts) => {
                    &&& first_execution_policy_error(policies@, names@, 0) is None
                    &&& drafts.policies@.len() == policies@.len()
                    &&& forall|k: int|
                        0 <= k < drafts.policies@.len() ==> execution_policy_of(
                            #[trigger] drafts.policies@[k],
                            policies@[k],
                            names@[k],
                            *defaults,
                            k,
                        )
                },
            },
    {
        let mut out: Vec<ExecutionPolicy> = Vec::new();
        let n: usize = policies.len();
        let mut i: usize = 0;
        while i < n
            invariant
                i <= n,
                n == policies@.len(),
                n == names@.len(),
                out@.len() == i,
                forall|k: int|
                    0 <= k < i ==> execution_policy_of(
                        #[trigger] out@[k],
                        policies@[k],
                        names@[k],
                        *defaults,
                        k,
                    ),
                first_execution_policy_error(policies@, names@, 0) == first_execution_policy_error(
                    policies@,
                    names@,
                    i as int,
                ),
            decreases n - i,
        {
            let p = &policies[i];
            let (database, environment): (String, String) = match accept_pair(
                &p.database,
                &p.environment,
                &names[i],
                "execution_policy",
                i,
            ) {
                Err(e) => {
                    return Err(e);
                },
                Ok(pair) => pair,
            };
            out.push(
                ExecutionPolicy {
                    id: concat2("ep-", decimal_text(i as u64).as_str()),
                    database,
                    environment,
                    max_executions: match p.max_executions {
                        Some(v) => v,
                        None => defaults.max_executions,
                    },
                    execution_window_secs: match p.execution_window_secs {
                        Some(v) => v,
                        None => defaults.execution_window_secs,
                    },
                    retry_on_failure: match p.retry_on_failure {
                        Some(v) => v,
                        None => defaults.retry_on_failure,
                    },
                    statement_timeout_secs: match p.statement_timeout_secs {
                        Some(v) => v,
                        None => defaults.statement_timeout_secs,
                    },
                    max_statement_timeout_secs: match p.max_statement_timeout_secs {
                        Some(v) => v,
                        None => defaults.max_statement_timeout_secs,
                    },
                    max_rows: p.max_rows,
                    migration_lease_duration_secs: p.migration_lease_duration_secs,
                    migration_statement_timeout_secs: p.migration_statement_timeout_secs,
                    created_at: None,
                    updated_at: None,
                },
            );
            i += 1;
        }
        Ok(ExecutionPolicyDrafts { policies: out })
    }

    /// What replaces the result policies of the configuration. Nothing is
    /// deleted where one is refused.
    pub fn sync_result_policies(
        &self,
        policies: &Vec<ResultPolicyInput>,
        replies: &Vec<ResultPolicyReplies>,
    ) -> (r: Result<Vec<ResultPolicy>, AppError>)
        requires
            replies@.len() == policies@.len(),
            forall|k: int|
                0 <= k < policies@.len() ==> (#[trigger] replies@[k]).access@.len()
                    == policies@[k].access@.len(),
        ensures
            match r {
                Err(e) => first_result_policy_error(policies@, replies@, 0) == Some(e@),
                Ok(create) => {
                    &&& first_result_policy_error(policies@, replies@, 0) is None
                    &&& create@.len() == policies@.len()
                    &&& forall|k: int|
                        0 <= k < create@.len() ==> result_policy_of(
                            #[trigger] create@[k],
                            policies@[k],
                            replies@[k],
                            k,
                        )
                },
            },
    {
        let mut create: Vec<ResultPolicy> = Vec::new();
        let n: usize = policies.len();
        let mut i: usize = 0;
        while i < n
            invariant
                i <= n,
                n == policies@.len(),
                n == replies@.len(),
                create@.len() == i,
                forall|k: int|
                    0 <= k < i ==> result_policy_of(
                        #[trigger] create@[k],
                        policies@[k],
                        replies@[k],
                        k,
                    ),
                first_result_policy_error(policies@, replies@, 0) == first_result_policy_error(
                    policies@,
                    replies@,
                    i as int,
                ),
            decreases n - i,
        {
            let p = &policies[i];
            let (database, environment): (String, String) = match accept_pair(
                &p.database,
                &p.environment,
                &replies[i].names,
                "result_policy",
                i,
            ) {
                Err(e) => {
                    return Err(e);
                },
                Ok(pair) => pair,
            };
            let delivery_mode: DeliveryMode = if same_text(p.delivery_mode.as_str(), "store_only") {
                DeliveryMode::StoreOnly
            } else if same_text(p.delivery_mode.as_str(), "stream") {
                DeliveryMode::Stream
            } else {
                DeliveryMode::Both
            };
            let access = match parse_access(&replies[i].access, i) {
                Err(e) => {
                    return Err(e);
                },
                Ok(v) => v,
            };
            create.push(
                ResultPolicy {
                    id: concat2("rp-", decimal_text(i as u64).as_str()),
                    database,
                    environment,
                    retention_days: p.retention_days,
                    delivery_mode,
                    access,
                    created_at: None,
                    updated_at: None,
                },
            );
            i += 1;
        }
        Ok(create)
    }

    /// What replaces the notification policies of the configuration. Nothing is
    /// deleted where one is refused.
    pub fn sync_notification_policies(
        &self,
        policies: &Vec<NotificationPolicyInput>,
        names: &Vec<NamePair>,
    ) -> (r: Result<Vec<NotificationPolicy>, AppError>)
        requires
            names@.len() == policies@.len(),
        ensures
            match r {
                Err(e) => first_notification_policy_error(policies@, names@, 0) == Some(e@),
                Ok(create) => {
                    &&& first_notification_policy_error(policies@, names@, 0) is None
                    &&& create@.len() == policies@.len()
                    &&& forall|k: int|
                        0 <= k < create@.len() ==> notification_policy_of(
                            #[trigger] create@[k],
                            policies@[k],
                            names@[k],
                            k,
                        )
                },
            },
    {
        let mut create: Vec<NotificationPolicy> = Vec::new();
        let n: usize = policies.len();
        let mut i: usize = 0;
        while i < n
            invariant
                i <= n,
                n == policies@.len(),
                n == names@.len(),
                create@.len() == i,
                forall|k: int|
                    0 <= k < i ==> notification_policy_of(
                        #[trigger] create@[k],
                        policies@[k],
                        names@[k],
                        k,
                    ),
                first_notification_policy_error(policies@, names@, 0)
                    == first_notification_policy_error(policies@, names@, i as int),
            decreases n - i,
        {
            let p = &policies[i];
            let (database, environment): (String, String) = match accept_pair(
                &p.database,
                &p.environment,
                &names[i],
                "notification_policy",
                i,
            ) {
                Err(e) => {
                    return Err(e);
                },
                Ok(pair) => pair,
            };
            create.push(
                NotificationPolicy {
                    id: concat2("np-", decimal_text(i as u64).as_str()),
                    database,
                    environment,
                    webhooks: copy_texts(&p.webhooks),
                    events: copy_texts(&p.events),
                },
            );
            i += 1;
        }
        Ok(create)
    }
}

/// One workflow that is refused stops the whole set, and only such a one does.
pub proof fn one_bad_workflow_stops_all(workflows: Seq<WorkflowInput>, replies: Seq<WorkflowReplies>)
    ensures
        first_workflow_error(workflows, replies, 0) is Some <==> exists|k: int|
            0 <= k < workflows.len() && (#[trigger] workflow_error(
                workflow_id(k),
                workflows[k],
                replies[k],
            )) is Some,
{
    lemma_workflow_errors(workflows, replies, 0);
}

proof fn lemma_workflow_errors(workflows: Seq<WorkflowInput>, replies: Seq<WorkflowReplies>, i: int)
    requires
        0 <= i,
    ensures
        first_workflow_error(workflows, replies, i) is Some <==> exists|k: int|
            i <= k < workflows.len() && (#[trigger] workflow_error(
                workflow_id(k),
                workflows[k],
                replies[k],
            )) is Some,
    decreases workflows.len() - i,
{
    if i < workflows.len() {
        lemma_workflow_errors(workflows, replies, i + 1);
        if workflow_error(workflow_id(i), workflows[i], replies[i]) is None {
            if exists|k: int|
                i <= k < workflows.len() && (#[trigger] workflow_error(
                    workflow_id(k),
                    workflows[k],
                    replies[k],
                )) is Some {
                let k = choose|k: int|
                    i <= k < workflows.len() && (#[trigger] workflow_error(
                        workflow_id(k),
                        workflows[k],
                        replies[k],
                    )) is Some;
                assert(k != i);
                assert(i + 1 <= k < workflows.len());
            }
        }
    }
}

/// Every step of a workflow that is accepted has an approver.
pub proof fn accepted_steps_have_approvers(
    id: Seq<char>,
    wf: WorkflowInput,
    replies: WorkflowReplies,
    w: Workflow,
    k: int,
)
    requires
        workflow_error(id, wf, replies) is None,
        workflow_of(w, id, wf, replies),
        0 <= k < w.steps@.len(),
    ensures
        w.steps@[k].approvers@.len() > 0,
{
    lemma_steps_accepted(wf.steps@, wf.database@, wf.environment@, 0, k);
    assert(step_of(w.steps@[k], wf.steps@[k]));
}

proof fn lemma_steps_accepted(
    steps: Seq<WorkflowStepInput>,
    database: Seq<char>,
    environment: Seq<char>,
    i: int,
    k: int,
)
    requires
        0 <= i <= k < steps.len(),
        first_step_error(steps, database, environment, i) is None,
    ensures
        step_error(steps[k], database, environment) is None,
    decreases k - i,
{
    if i < k {
        lemma_steps_accepted(steps, database, environment, i + 1, k);
    }
}

/// The wildcard is accepted as a name whatever the reading of names says.
pub proof fn wildcard_is_a_name(reply: NameReply, prefix: Seq<char>)
    ensures
        name_error("*"@, reply, prefix) is None,
        accepted_name("*"@, reply) == "*"@,
{
}

/// The parts are taken over in their order, databases first: after each the one
/// at the next place, and after the last the commit.
pub proof fn parts_come_in_dependency_order(part: SyncPart, summary: SyncSummary)
    ensures
        sync_start().part == SyncPart::in_order()[0],
        SyncPart::in_order()[part.place()] == part,
        match part_done(part, summary) {
            SyncStep::Part(next) => {
                &&& next.part.place() == part.place() + 1
                &&& next.summary == summary
            },
            SyncStep::Commit(c) => {
                &&& part == SyncPart::in_order().last()
                &&& c.summary == summary
            },
            _ => false,
        },
{
}

proof fn lemma_sync_end(s: Syncing, replies: Seq<PartReplies>)
    ensures
        match sync_end(s, replies) {
            SyncEnd::Commit(summary) => {
                &&& forall|i: int|
                    s.part.place() <= i < 10 ==> part_failure(
                        SyncPart::in_order()[i],
                        #[trigger] replies[i],
                    ) is None && summary.of(SyncPart::in_order()[i]) == replies[i].taken->Ok_0
                &&& forall|i: int|
                    0 <= i < s.part.place() ==> summary.of(#[trigger] SyncPart::in_order()[i])
                        == s.summary.of(SyncPart::in_order()[i])
            },
            SyncEnd::Rollback(e) => exists|i: int|
                s.part.place() <= i < 10 && part_failure(
                    SyncPart::in_order()[i],
                    #[trigger] replies[i],
                ) == Some(e) && forall|j: int|
                    s.part.place() <= j < i ==> part_failure(
                        SyncPart::in_order()[j],
                        #[trigger] replies[j],
                    ) is None,
        },
    decreases 10 - s.part.place(),
{
    let p = s.part.place();
    let own = replies[p];
    parts_come_in_dependency_order(s.part, s.summary);
    if part_failure(s.part, own) is None {
        let summary = s.summary.with(s.part, own.taken->Ok_0);
        match s.part.following() {
            Some(next) => {
                parts_come_in_dependency_order(next, summary);
                lemma_sync_end(Syncing { part: next, summary }, replies);
                match sync_end(s, replies) {
                    SyncEnd::Commit(end) => {
                        assert(end.of(SyncPart::in_order()[p]) == summary.of(s.part));
                    },
                    SyncEnd::Rollback(e) => {
                        let i = choose|i: int|
                            next.place() <= i < 10 && part_failure(
                                SyncPart::in_order()[i],
                                #[trigger] replies[i],
                            ) == Some(e) && forall|j: int|
                                next.place() <= j < i ==> part_failure(
                                    SyncPart::in_order()[j],
                                    #[trigger] replies[j],
                                ) is None;
                        assert(replies[i] == replies[i]);
                    },
                }
            },
            None => {},
        }
    }
}

/// The transaction is committed if and only if every part was taken over within
/// its limit, and then the summary tells the counts of each; else it is rolled
/// back with the failure of the first part that has one, and later parts are not
/// touched.
pub proof fn one_failing_part_undoes_all(replies: Seq<PartReplies>)
    ensures
        match sync_end(sync_start(), replies) {
            SyncEnd::Commit(summary) => forall|i: int|
                0 <= i < SyncPart::in_order().len() ==> part_failure(
                    SyncPart::in_order()[i],
                    #[trigger] replies[i],
                ) is None && summary.of(SyncPart::in_order()[i]) == replies[i].taken->Ok_0,
            SyncEnd::Rollback(e) => exists|i: int|
                0 <= i < SyncPart::in_order().len() && part_failure(
                    SyncPart::in_order()[i],
                    #[trigger] replies[i],
                ) == Some(e) && forall|j: int|
                    0 <= j < i ==> part_failure(
                        SyncPart::in_order()[j],
                        #[trigger] replies[j],
                    ) is None,
        },
{
    lemma_sync_end(sync_start(), replies);
}

/// Whether a name of the configuration can be taken over: it is the wildcard, or
/// it could be read.
pub open spec fn usable(name: Seq<char>, reply: NameReply) -> bool {
    name == "*"@ || reply is Ok
}

/// Whether a step of the configuration can be taken over: it wants one or all of
/// its approvers, there are some, and each is a role, a group or a user.
pub open spec fn usable_step(step: WorkflowStepInput) -> bool {
    &&& step.mode@ == "any"@ || step.mode@ == "all"@
    &&& step.approvers@.len() > 0
    &&& forall|k: int|
        0 <= k < step.approvers@.len() ==> {
            ||| (#[trigger] step.approvers@[k]).selector_type@ == "role"@
            ||| step.approvers@[k].selector_type@ == "group"@
            ||| step.approvers@[k].selector_type@ == "user"@
        }
}

/// Whether a workflow of the configuration can be taken over.
pub open spec fn usable_workflow(wf: WorkflowInput, replies: WorkflowReplies) -> bool {
    &&& usable(wf.database@, replies.names.database)
    &&& usable(wf.environment@, replies.names.environment)
    &&& forall|k: int|
        0 <= k < replies.operations@.len() ==> (#[trigger] replies.operations@[k]) is Ok
    &&& forall|k: int| 0 <= k < wf.steps@.len() ==> usable_step(#[trigger] wf.steps@[k])
}

proof fn lemma_operations(operations: Seq<Result<Operation, String>>, id: Seq<char>, i: int)
    requires
        0 <= i,
    ensures
        first_operation_error(operations, id, i) is None <==> forall|k: int|
            i <= k < operations.len() ==> (#[trigger] operations[k]) is Ok,
    decreases operations.len() - i,
{
    if i < operations.len() {
        lemma_operations(operations, id, i + 1);
    }
}

proof fn lemma_approver_kinds(approvers: Seq<ApproverInput>, i: int)
    requires
        0 <= i,
    ensures
        first_approver_error(approvers, i) is None <==> forall|k: int|
            i <= k < approvers.len() ==> {
                ||| (#[trigger] approvers[k]).selector_type@ == "role"@
                ||| approvers[k].selector_type@ == "group"@
                ||| approvers[k].selector_type@ == "user"@
            },
    decreases approvers.len() - i,
{
    if i < approvers.len() {
        lemma_approver_kinds(approvers, i + 1);
    }
}

proof fn lemma_steps(
    steps: Seq<WorkflowStepInput>,
    database: Seq<char>,
    environment: Seq<char>,
    i: int,
)
    requires
        0 <= i,
    ensures
        first_step_error(steps, database, environment, i) is None <==> forall|k: int|
            i <= k < steps.len() ==> usable_step(#[trigger] steps[k]),
    decreases steps.len() - i,
{
    if i < steps.len() {
        lemma_steps(steps, database, environment, i + 1);
        lemma_approver_kinds(steps[i].approvers@, 0);
        assert(step_error(steps[i], database, environment) is None <==> usable_step(steps[i]));
    }
}

proof fn lemma_usable_workflow(id: Seq<char>, wf: WorkflowInput, replies: WorkflowReplies)
    ensures
        workflow_error(id, wf, replies) is None <==> usable_workflow(wf, replies),
{
    lemma_operations(replies.operations@, id, 0);
    lemma_steps(wf.steps@, wf.database@, wf.environment@, 0);
}

/// The workflows of a configuration are taken over all or not at all: exactly if
/// every one can be.
pub proof fn workflows_are_taken_over_all_or_none(
    uc: SyncConfig,
    workflows: Vec<WorkflowInput>,
    replies: Vec<WorkflowReplies>,
    r: Result<WorkflowPlan, AppError>,
)
    requires
        replies@.len() == workflows@.len(),
        call_ensures(SyncConfig::sync_workflows, (&uc, &workflows, &replies), r),
    ensures
        r is Ok <==> forall|k: int|
            0 <= k < workflows@.len() ==> usable_workflow(#[trigger] workflows@[k], replies@[k]),
        r matches Ok(plan) ==> plan.create@.len() == workflows@.len(),
{
    one_bad_workflow_stops_all(workflows@, replies@);
    assert forall|k: int| 0 <= k < workflows@.len() implies (usable_workflow(
        #[trigger] workflows@[k],
        replies@[k],
    ) <==> workflow_error(workflow_id(k), workflows@[k], replies@[k]) is None) by {
        lemma_usable_workflow(workflow_id(k), workflows@[k], replies@[k]);
    }
    if r is Ok {
        assert forall|k: int| 0 <= k < workflows@.len() implies usable_workflow(
            #[trigger] workflows@[k],
            replies@[k],
        ) by {
            assert(workflow_error(workflow_id(k), workflows@[k], replies@[k]) is None);
        }
    } else {
        let k = choose|k: int|
            0 <= k < workflows@.len() && (#[trigger] workflow_error(
                workflow_id(k),
                workflows@[k],
                replies@[k],
            )) is Some;
        assert(!usable_workflow(workflows@[k], replies@[k]));
    }
}

/// A step that is taken over wants all of its approvers exactly if the
/// configuration says "all", and one of them exactly if it says "any".
pub proof fn steps_keep_their_mode(
    uc: SyncConfig,
    workflows: Vec<WorkflowInput>,
    replies: Vec<WorkflowReplies>,
    plan: WorkflowPlan,
    w: int,
    k: int,
)
    requires
        replies@.len() == workflows@.len(),
        call_ensures(
            SyncConfig::sync_workflows,
            (&uc, &workflows, &replies),
            Ok::<WorkflowPlan, AppError>(plan),
        ),
        0 <= w < workflows@.len(),
        0 <= k < workflows@[w].steps@.len(),
    ensures
        plan.create@.len() == workflows@.len(),
        plan.create@[w].steps@.len() == workflows@[w].steps@.len(),
        plan.create@[w].steps@[k].mode == WorkflowStepMode::All <==> workflows@[w].steps@[k].mode@
            == "all"@,
        plan.create@[w].steps@[k].mode == WorkflowStepMode::Any <==> workflows@[w].steps@[k].mode@
            == "any"@,
{
    reveal_strlit("all");
    reveal_strlit("any");
    assert("all"@[1] != "any"@[1]);
    workflows_are_taken_over_all_or_none(uc, workflows, replies, Ok(plan));
    assert(usable_workflow(workflows@[w], replies@[w]));
    assert(usable_step(workflows@[w].steps@[k]));
    assert(workflow_of(plan.create@[w], workflow_id(w), workflows@[w], replies@[w]));
    assert(step_of(plan.create@[w].steps@[k], workflows@[w].steps@[k]));
}

/// An approver that is taken over is of the kind, has the value and wants the
/// number of approvals that the configuration says.
pub proof fn approvers_keep_their_kind(
    uc: SyncConfig,
    workflows: Vec<WorkflowInput>,
    replies: Vec<WorkflowReplies>,
    plan: WorkflowPlan,
    w: int,
    k: int,
    a: int,
)
    requires
        replies@.len() == workflows@.len(),
        call_ensures(
            SyncConfig::sync_workflows,
            (&uc, &workflows, &replies),
            Ok::<WorkflowPlan, AppError>(plan),
        ),
        0 <= w < workflows@.len(),
        0 <= k < workflows@[w].steps@.len(),
        0 <= a < workflows@[w].steps@[k].approvers@.len(),
    ensures
        plan.create@[w].steps@[k].approvers@.len() == workflows@[w].steps@[k].approvers@.len(),
        ({
            let given = workflows@[w].steps@[k].approvers@[a];
            let made = plan.create@[w].steps@[k].approvers@[a];
            &&& made.min == given.min
            &&& made.selector is Role <==> given.selector_type@ == "role"@
            &&& made.selector is Group <==> given.selector_type@ == "group"@
            &&& made.selector is User <==> given.selector_type@ == "user"@
            &&& made.selector matches Selector::Role(v) ==> v == given.value
            &&& made.selector matches Selector::Group(v) ==> v == given.value
            &&& made.selector matches Selector::User(v) ==> v == given.value
        }),
{
    reveal_strlit("role");
    reveal_strlit("group");
    reveal_strlit("user");
    assert("role"@[0] != "user"@[0]);
    assert("role"@.len() != "group"@.len());
    workflows_are_taken_over_all_or_none(uc, workflows, replies, Ok(plan));
    assert(usable_workflow(workflows@[w], replies@[w]));
    assert(usable_step(workflows@[w].steps@[k]));
    assert(workflow_of(plan.create@[w], workflow_id(w), workflows@[w], replies@[w]));
    assert(step_of(plan.create@[w].steps@[k], workflows@[w].steps@[k]));
    assert(approver_of(
        plan.create@[w].steps@[k].approvers@[a],
        workflows@[w].steps@[k].approvers@[a],
    ));
}

/// The rules of a workflow are those of the configuration, and it applies to
/// what the configuration names: a wildcard stays one, any other name is as it
/// was read.
pub proof fn workflows_keep_their_rules(
    uc: SyncConfig,
    workflows: Vec<WorkflowInput>,
    replies: Vec<WorkflowReplies>,
    plan: WorkflowPlan,
    w: int,
)
    requires
        replies@.len() == workflows@.len(),
        call_ensures(
            SyncConfig::sync_workflows,
            (&uc, &workflows, &replies),
            Ok::<WorkflowPlan, AppError>(plan),
        ),
        0 <= w < workflows@.len(),
    ensures
        ({
            let given = workflows@[w];
            let made = plan.create@[w];
            &&& made.require_reason == given.require_reason
            &&& made.allow_self_approve == given.allow_self_approve
            &&& made.allow_same_approver_across_steps == given.allow_same_approver_across_steps
            &&& made.explain == given.explain
            &&& made.pending_ttl_secs == given.pending_ttl_secs
            &&& made.statement_timeout_secs == given.statement_timeout_secs
            &&& given.database@ == "*"@ ==> made.database@ == "*"@
            &&& given.database@ != "*"@ ==> replies@[w].names.database is Ok && made.database@
                == replies@[w].names.database->Ok_0@
            &&& given.environment@ == "*"@ ==> made.environment@ == "*"@
            &&& given.environment@ != "*"@ ==> replies@[w].names.environment is Ok
                && made.environment@ == replies@[w].names.environment->Ok_0@
            &&& made.operations@.len() == replies@[w].operations@.len()
            &&& forall|o: int|
                0 <= o < made.operations@.len() ==> replies@[w].operations@[o] is Ok
                    && #[trigger] made.operations@[o] == replies@[w].operations@[o]->Ok_0
        }),
{
    workflows_are_taken_over_all_or_none(uc, workflows, replies, Ok(plan));
    assert(usable_workflow(workflows@[w], replies@[w]));
    assert(workflow_of(plan.create@[w], workflow_id(w), workflows@[w], replies@[w]));
    assert forall|o: int| 0 <= o < plan.create@[w].operations@.len() implies replies@[w].operations@[o] is Ok
        && #[trigger] plan.create@[w].operations@[o] == replies@[w].operations@[o]->Ok_0 by {
        assert(replies@[w].operations@[o] == Ok::<Operation, String>(
            plan.create@[w].operations@[o],
        ));
    }
}

/// Databases are registered up to the first that cannot be read, which stops the
/// synchronization; if all can be read all are registered.
pub proof fn databases_are_registered_in_order(uc: SyncConfig, names: Vec<NamePair>, r: DatabasePlan)
    requires
        call_ensures(SyncConfig::sync_databases, (&uc, &names), r),
    ensures
        r.failure is None <==> forall|k: int|
            0 <= k < names@.len() ==> (#[trigger] names@[k]).database is Ok
                && names@[k].environment is Ok,
        r.failure is None ==> r.register@.len() == names@.len(),
        r.register@.len() <= names@.len(),
        forall|k: int|
            0 <= k < r.register@.len() ==> (#[trigger] names@[k]).database is Ok
                && names@[k].environment is Ok && r.register@[k].name
                == names@[k].database->Ok_0 && r.register@[k].environment
                == names@[k].environment->Ok_0,
{
    lemma_bad_entry(names@, 0);
    assert forall|k: int| 0 <= k < r.register@.len() implies (#[trigger] names@[k]).database is Ok
        && names@[k].environment is Ok && r.register@[k].name == names@[k].database->Ok_0
        && r.register@[k].environment == names@[k].environment->Ok_0 by {
        assert(r.register@[k] == r.register@[k]);
    }
    let k = first_bad_entry(names@, 0);
    if k < names@.len() {
        assert(!(names@[k].database is Ok && names@[k].environment is Ok));
    }
}

proof fn lemma_bad_entry(names: Seq<NamePair>, i: int)
    requires
        0 <= i <= names.len(),
    ensures
        i <= first_bad_entry(names, i) <= names.len(),
        forall|k: int|
            i <= k < first_bad_entry(names, i) ==> (#[trigger] names[k]).database is Ok
                && names[k].environment is Ok,
        first_bad_entry(names, i) < names.len() ==> entry_error(
            names[first_bad_entry(names, i)],
        ) is Some,
    decreases names.len() - i,
{
    if i < names.len() && entry_error(names[i]) is None {
        lemma_bad_entry(names, i + 1);
    }
}

proof fn lemma_database_list(inputs: Seq<DatabaseInput>, d: int, e: int)
    requires
        0 <= d < inputs.len(),
        0 <= e < inputs[d].environments@.len(),
    ensures
        exists|k: int|
            0 <= k < database_list(inputs).len() && (#[trigger] database_list(inputs)[k]).name
                == inputs[d].name && database_list(inputs)[k].environment
                == inputs[d].environments@[e],
    decreases inputs.len(),
{
    let rest = inputs.drop_last();
    let before = database_list(rest);
    let all = database_list(inputs);
    if d < rest.len() {
        assert(rest[d] == inputs[d]);
        lemma_database_list(rest, d, e);
        let k = choose|k: int|
            0 <= k < before.len() && (#[trigger] before[k]).name == inputs[d].name
                && before[k].environment == inputs[d].environments@[e];
        assert(all[k] == before[k]);
    } else {
        assert(all[before.len() + e] == entries_of(inputs[d])[e]);
    }
}

/// Every environment of every database of the configuration is registered.
pub proof fn every_environment_is_registered(
    inputs: Vec<DatabaseInput>,
    r: Vec<DatabaseEntry>,
    d: int,
    e: int,
)
    requires
        call_ensures(database_entries, (&inputs,), r),
        0 <= d < inputs@.len(),
        0 <= e < inputs@[d].environments@.len(),
    ensures
        exists|k: int|
            0 <= k < r@.len() && (#[trigger] r@[k]).name == inputs@[d].name && r@[k].environment
                == inputs@[d].environments@[e],
{
    lemma_database_list(inputs@, d, e);
}

/// A user is suspended exactly if the configuration says so.
pub proof fn suspended_users_are_suspended(
    uc: SyncConfig,
    users: Vec<UserInput>,
    now: Timestamp,
    r: Vec<User>,
    k: int,
)
    requires
        call_ensures(SyncConfig::sync_users, (&uc, &users, now), r),
        0 <= k < users@.len(),
    ensures
        r@.len() == users@.len(),
        r@[k].id == users@[k].id,
        r@[k].status == UserStatus::Suspended <==> users@[k].status@ == "suspended"@,
        r@[k].status == UserStatus::Active <==> users@[k].status@ != "suspended"@,
        r@[k].created_at == now,
{
    assert(user_of(r@[k], users@[k], now));
}

proof fn lemma_permissions(permissions: Seq<Result<Permission, String>>, role: Seq<char>, i: int)
    requires
        0 <= i,
    ensures
        first_permission_error(permissions, role, i) is None <==> forall|k: int|
            i <= k < permissions.len() ==> (#[trigger] permissions[k]) is Ok,
    decreases permissions.len() - i,
{
    if i < permissions.len() {
        lemma_permissions(permissions, role, i + 1);
    }
}

proof fn lemma_names_usable(
    names: Seq<String>,
    replies: Seq<NameReply>,
    prefix: Seq<char>,
    i: int,
)
    requires
        0 <= i,
    ensures
        first_name_error(names, replies, prefix, i) is None <==> forall|k: int|
            i <= k < names.len() ==> usable((#[trigger] names[k])@, replies[k]),
    decreases names.len() - i,
{
    if i < names.len() {
        lemma_names_usable(names, replies, prefix, i + 1);
    }
}

/// Whether a role of the configuration can be taken over.
pub open spec fn usable_role(role: RoleInput, replies: RoleReplies) -> bool {
    &&& forall|k: int|
        0 <= k < replies.permissions@.len() ==> (#[trigger] replies.permissions@[k]) is Ok
    &&& forall|k: int|
        0 <= k < role.databases@.len() ==> usable(
            (#[trigger] role.databases@[k])@,
            replies.databases@[k],
        )
    &&& forall|k: int|
        0 <= k < role.environments@.len() ==> usable(
            (#[trigger] role.environments@[k])@,
            replies.environments@[k],
        )
}

proof fn lemma_bad_role(roles: Seq<RoleInput>, replies: Seq<RoleReplies>, i: int)
    requires
        0 <= i <= roles.len(),
    ensures
        i <= first_bad_role(roles, replies, i) <= roles.len(),
        forall|k: int|
            i <= k < first_bad_role(roles, replies, i) ==> usable_role(
                #[trigger] roles[k],
                replies[k],
            ),
        first_bad_role(roles, replies, i) < roles.len() ==> !usable_role(
            roles[first_bad_role(roles, replies, i)],
            replies[first_bad_role(roles, replies, i)],
        ),
    decreases roles.len() - i,
{
    if i < roles.len() {
        lemma_permissions(replies[i].permissions@, roles[i].name@, 0);
        lemma_names_usable(roles[i].databases@, replies[i].databases@, "role db: "@, 0);
        lemma_names_usable(roles[i].environments@, replies[i].environments@, "role env: "@, 0);
        assert(role_error(roles[i], replies[i]) is None <==> usable_role(roles[i], replies[i]));
        if role_error(roles[i], replies[i]) is None {
            lemma_bad_role(roles, replies, i + 1);
        }
    }
}

/// Roles are created up to the first that cannot be taken over. A role holds the
/// permissions that the configuration gives it, on the databases and in the
/// environments that it names, or on all where it names none.
pub proof fn roles_hold_what_they_are_given(
    uc: SyncConfig,
    roles: Vec<RoleInput>,
    replies: Vec<RoleReplies>,
    r: RolePlan,
)
    requires
        replies@.len() == roles@.len(),
        call_ensures(SyncConfig::sync_roles, (&uc, &roles, &replies), r),
    ensures
        r.failure is None <==> forall|k: int|
            0 <= k < roles@.len() ==> usable_role(#[trigger] roles@[k], replies@[k]),
        r.failure is None ==> r.create@.len() == roles@.len(),
        r.create@.len() <= roles@.len(),
        forall|k: int|
            0 <= k < r.create@.len() ==> {
                &&& (#[trigger] r.create@[k]).name == roles@[k].name
                &&& r.create@[k].permissions@.len() == replies@[k].permissions@.len()
                &&& roles@[k].databases@.len() == 0 ==> texts(r.create@[k].databases@) == seq![
                    "*"@,
                ]
                &&& roles@[k].environments@.len() == 0 ==> texts(r.create@[k].environments@)
                    == seq!["*"@]
                &&& roles@[k].databases@.len() > 0 ==> r.create@[k].databases@.len()
                    == roles@[k].databases@.len()
            },
{
    lemma_bad_role(roles@, replies@, 0);
    let k = first_bad_role(roles@, replies@, 0);
    if k < roles@.len() {
        assert(!usable_role(roles@[k], replies@[k]));
    }
    assert forall|j: int| 0 <= j < r.create@.len() implies {
        &&& (#[trigger] r.create@[j]).name == roles@[j].name
        &&& r.create@[j].permissions@.len() == replies@[j].permissions@.len()
        &&& roles@[j].databases@.len() == 0 ==> texts(r.create@[j].databases@) == seq!["*"@]
        &&& roles@[j].environments@.len() == 0 ==> texts(r.create@[j].environments@) == seq!["*"@]
        &&& roles@[j].databases@.len() > 0 ==> r.create@[j].databases@.len()
            == roles@[j].databases@.len()
    } by {
        assert(role_of(r.create@[j], roles@[j], replies@[j]));
        assert(texts(r.create@[j].databases@).len() == r.create@[j].databases@.len());
    }
}

/// A permission of a created role is the one that was read, in its place, and so
/// are its databases.
pub proof fn roles_hold_their_permissions(
    uc: SyncConfig,
    roles: Vec<RoleInput>,
    replies: Vec<RoleReplies>,
    r: RolePlan,
    k: int,
    p: int,
    d: int,
)
    requires
        replies@.len() == roles@.len(),
        call_ensures(SyncConfig::sync_roles, (&uc, &roles, &replies), r),
        0 <= k < r.create@.len(),
        0 <= p < replies@[k].permissions@.len(),
        0 <= d < roles@[k].databases@.len(),
    ensures
        replies@[k].permissions@[p] is Ok,
        r.create@[k].permissions@[p] == replies@[k].permissions@[p]->Ok_0,
        roles@[k].databases@[d]@ == "*"@ ==> r.create@[k].databases@[d]@ == "*"@,
        roles@[k].databases@[d]@ != "*"@ ==> r.create@[k].databases@[d]@
            == replies@[k].databases@[d]->Ok_0@,
{
    lemma_bad_role(roles@, replies@, 0);
    assert(role_of(r.create@[k], roles@[k], replies@[k]));
    assert(replies@[k].permissions@[p] == Ok::<Permission, String>(r.create@[k].permissions@[p]));
    assert(texts(r.create@[k].databases@).len() == r.create@[k].databases@.len());
    assert(texts(r.create@[k].databases@).len() == roles@[k].databases@.len());
    assert(texts(r.create@[k].databases@)[d] == r.create@[k].databases@[d]@);
}

/// A binding gives the role of the configuration to the subjects and groups of
/// the configuration.
pub proof fn bindings_bind_whom_they_name(
    uc: SyncConfig,
    bindings: Vec<RoleBindingInput>,
    r: Vec<RoleBinding>,
    k: int,
)
    requires
        call_ensures(SyncConfig::sync_role_bindings, (&uc, &bindings), r),
        0 <= k < bindings@.len(),
    ensures
        r@.len() == bindings@.len(),
        r@[k].role == bindings@[k].role,
        texts(r@[k].subjects@) == texts(bindings@[k].subjects@),
        texts(r@[k].groups@) == texts(bindings@[k].groups@),
{
    assert(binding_of(r@[k], bindings@[k], k));
}

proof fn lemma_webhooks(webhooks: Seq<WebhookInput>, reachable: Seq<Result<(), String>>, i: int)
    requires
        0 <= i,
    ensures
        first_webhook_error(webhooks, reachable, i) is None <==> forall|k: int|
            i <= k < webhooks.len() ==> reachable[k] is Ok && ((#[trigger] webhooks[k]).format@
                == "slack"@ || webhooks[k].format@ == "generic"@),
    decreases webhooks.len() - i,
{
    if i < webhooks.len() {
        lemma_webhooks(webhooks, reachable, i + 1);
    }
}

/// The webhooks of a configuration are taken over exactly if each may be reached
/// and is written for Slack or in the generic form; each is active and in the
/// form that the configuration says.
pub proof fn webhooks_keep_their_form(
    uc: SyncConfig,
    webhooks: Vec<WebhookInput>,
    reachable: Vec<Result<(), String>>,
    now: Timestamp,
    r: Result<WebhookPlan, AppError>,
)
    requires
        reachable@.len() == webhooks@.len(),
        call_ensures(SyncConfig::sync_webhooks, (&uc, &webhooks, &reachable, now), r),
    ensures
        r is Ok <==> forall|k: int|
            0 <= k < webhooks@.len() ==> reachable@[k] is Ok && ((
            #[trigger] webhooks@[k]).format@ == "slack"@ || webhooks@[k].format@ == "generic"@),
        r matches Ok(plan) ==> {
            &&& plan.create@.len() == webhooks@.len()
            &&& forall|k: int|
                0 <= k < plan.create@.len() ==> {
                    &&& (#[trigger] plan.create@[k]).id == webhooks@[k].id
                    &&& plan.create@[k].url == webhooks@[k].url
                    &&& plan.create@[k].secret == webhooks@[k].secret
                    &&& texts(plan.create@[k].events@) == texts(webhooks@[k].events@)
                    &&& plan.create@[k].status == WebhookStatus::Active
                    &&& plan.create@[k].format == WebhookFormat::Slack <==> webhooks@[k].format@
                        == "slack"@
                    &&& plan.create@[k].format == WebhookFormat::Generic <==> webhooks@[k].format@
                        != "slack"@
                }
        },
{
    lemma_webhooks(webhooks@, reachable@, 0);
    if let Ok(plan) = r {
        assert forall|k: int| 0 <= k < plan.create@.len() implies webhook_of(
            #[trigger] plan.create@[k],
            webhooks@[k],
            now,
        ) by {}
    }
}

/// What the configuration says of an execution policy overrides the default, and
/// what it does not say is the default.
pub proof fn execution_policies_override_the_defaults(
    uc: SyncConfig,
    policies: Vec<ExecutionPolicyInput>,
    names: Vec<NamePair>,
    defaults: ExecutionPolicy,
    drafts: ExecutionPolicyDrafts,
    k: int,
)
    requires
        names@.len() == policies@.len(),
        call_ensures(
            SyncConfig::sync_execution_policies,
            (&uc, &policies, &names, &defaults),
            Ok::<ExecutionPolicyDrafts, AppError>(drafts),
        ),
        0 <= k < policies@.len(),
    ensures
        drafts.policies@.len() == policies@.len(),
        ({
            let made = drafts.policies@[k];
            let given = policies@[k];
            &&& given.max_executions matches Some(v) ==> made.max_executions == v
            &&& given.max_executions is None ==> made.max_executions == defaults.max_executions
            &&& given.execution_window_secs matches Some(v) ==> made.execution_window_secs == v
            &&& given.execution_window_secs is None ==> made.execution_window_secs
                == defaults.execution_window_secs
            &&& given.retry_on_failure matches Some(v) ==> made.retry_on_failure == v
            &&& given.retry_on_failure is None ==> made.retry_on_failure
                == defaults.retry_on_failure
            &&& given.statement_timeout_secs matches Some(v) ==> made.statement_timeout_secs == v
            &&& given.statement_timeout_secs is None ==> made.statement_timeout_secs
                == defaults.statement_timeout_secs
            &&& given.max_statement_timeout_secs matches Some(v)
                ==> made.max_statement_timeout_secs == v
            &&& given.max_statement_timeout_secs is None ==> made.max_statement_timeout_secs
                == defaults.max_statement_timeout_secs
            &&& made.max_rows == given.max_rows
            &&& given.database@ == "*"@ ==> made.database@ == "*"@
            &&& given.database@ != "*"@ && names@[k].database is Ok ==> made.database@
                == names@[k].database->Ok_0@
        }),
{
    assert(execution_policy_of(drafts.policies@[k], policies@[k], names@[k], defaults, k));
}

proof fn lemma_policy_checks(checks: Seq<Result<(), String>>, i: int)
    requires
        0 <= i,
    ensures
        first_check_error(checks, i) is None <==> forall|k: int|
            i <= k < checks.len() ==> (#[trigger] checks[k]) is Ok,
    decreases checks.len() - i,
{
    if i < checks.len() {
        lemma_policy_checks(checks, i + 1);
    }
}

/// Execution policies are created as drafted, exactly if all of them pass their
/// checks.
pub proof fn one_bad_execution_policy_stops_all(
    drafts: ExecutionPolicyDrafts,
    checks: Vec<Result<(), String>>,
    r: Result<ExecutionPolicyPlan, AppError>,
)
    requires
        checks@.len() == drafts.policies@.len(),
        call_ensures(ExecutionPolicyDrafts::checked, (drafts, &checks), r),
    ensures
        r is Ok <==> forall|k: int| 0 <= k < checks@.len() ==> (#[trigger] checks@[k]) is Ok,
        r matches Ok(plan) ==> plan.create == drafts.policies,
{
    lemma_policy_checks(checks@, 0);
}

/// A result policy delivers as the configuration says: it only stores, only
/// streams, or does both; and it keeps and shares what the configuration says.
pub proof fn result_policies_deliver_as_told(
    uc: SyncConfig,
    policies: Vec<ResultPolicyInput>,
    replies: Vec<ResultPolicyReplies>,
    create: Vec<ResultPolicy>,
    k: int,
    a: int,
)
    requires
        replies@.len() == policies@.len(),
        call_ensures(
            SyncConfig::sync_result_policies,
            (&uc, &policies, &replies),
            Ok::<Vec<ResultPolicy>, AppError>(create),
        ),
        0 <= k < policies@.len(),
        0 <= a < replies@[k].access@.len(),
    ensures
        create@.len() == policies@.len(),
        create@[k].retention_days == policies@[k].retention_days,
        create@[k].delivery_mode == DeliveryMode::StoreOnly <==> policies@[k].delivery_mode@
            == "store_only"@,
        create@[k].delivery_mode == DeliveryMode::Stream <==> policies@[k].delivery_mode@
            == "stream"@,
        create@[k].delivery_mode == DeliveryMode::Both <==> policies@[k].delivery_mode@
            != "store_only"@ && policies@[k].delivery_mode@ != "stream"@,
        create@[k].access@.len() == replies@[k].access@.len(),
        replies@[k].access@[a] is Ok,
        create@[k].access@[a] == replies@[k].access@[a]->Ok_0,
{
    reveal_strlit("store_only");
    reveal_strlit("stream");
    assert("store_only"@.len() != "stream"@.len());
    assert(result_policy_of(create@[k], policies@[k], replies@[k], k));
    assert(replies@[k].access@[a] == Ok::<Selector, String>(create@[k].access@[a]));
}

/// A notification policy notifies whom the configuration names of what it names.
pub proof fn notification_policies_notify_as_told(
    uc: SyncConfig,
    policies: Vec<NotificationPolicyInput>,
    names: Vec<NamePair>,
    create: Vec<NotificationPolicy>,
    k: int,
)
    requires
        names@.len() == policies@.len(),
        call_ensures(
            SyncConfig::sync_notification_policies,
            (&uc, &policies, &names),
            Ok::<Vec<NotificationPolicy>, AppError>(create),
        ),
        0 <= k < policies@.len(),
    ensures
        create@.len() == policies@.len(),
        texts(create@[k].webhooks@) == texts(policies@[k].webhooks@),
        texts(create@[k].events@) == texts(policies@[k].events@),
{
    assert(notification_policy_of(create@[k], policies@[k], names@[k], k));
}

/// A limit is kept up to the number that is allowed.
pub proof fn limits_allow_up_to_their_number(
    what: Limited,
    have: u32,
    max: u32,
    r: Result<(), AppError>,
)
    requires
        call_ensures(check_limit, (what, have, max), r),
    ensures
        r is Ok <==> have <= max,
        r is Err ==> r->Err_0 is Validation,
{
}

/// Databases come first; users follow databases, groups follow users, roles
/// follow groups, bindings follow roles, webhooks follow bindings, workflows
/// follow webhooks, and the policies follow workflows.
pub proof fn each_part_follows_what_it_refers_to(
    uc: SyncConfig,
    first: Result<Syncing, AppError>,
    stage: Syncing,
    counts: PartCounts,
    r: SyncStep,
)
    requires
        call_ensures(SyncConfig::sync_all, (&uc, Ok::<(), AppError>(())), first),
        call_ensures(Syncing::taken, (stage, Ok::<PartCounts, AppError>(counts)), r),
    ensures
        first is Ok && first->Ok_0.part == SyncPart::Databases,
        stage.part == SyncPart::Databases ==> r is Limit && r->Limit_0.what == Limited::Database,
        stage.part == SyncPart::Users ==> r is Part && r->Part_0.part == SyncPart::Groups,
        stage.part == SyncPart::Groups ==> r is Part && r->Part_0.part == SyncPart::Roles,
        stage.part == SyncPart::Roles ==> r is Limit && r->Limit_0.what == Limited::Role,
        stage.part == SyncPart::RoleBindings ==> r is Part && r->Part_0.part
            == SyncPart::Webhooks,
        stage.part == SyncPart::Webhooks ==> r is Limit && r->Limit_0.what == Limited::Webhook,
        stage.part == SyncPart::Workflows ==> r is Limit && r->Limit_0.what == Limited::Workflow,
        stage.part == SyncPart::ExecutionPolicies ==> r is Part && r->Part_0.part
            == SyncPart::ResultPolicies,
        stage.part == SyncPart::ResultPolicies ==> r is Part && r->Part_0.part
            == SyncPart::NotificationPolicies,
        stage.part == SyncPart::NotificationPolicies ==> r is Commit,
        r matches SyncStep::Limit(s) ==> s.part == stage.part,
{
}

/// After a limit that is kept the next part follows, and one that is exceeded
/// undoes everything.
pub proof fn each_limit_leads_to_the_next_part(
    stage: SyncLimit,
    have: Result<u32, AppError>,
    max: u32,
    r: SyncStep,
)
    requires
        call_ensures(SyncLimit::counted, (stage, have, max), r),
    ensures
        r is Rollback <==> have is Err || have->Ok_0 > max,
        have matches Ok(n) ==> n <= max ==> {
            &&& stage.part == SyncPart::Databases ==> r is Part && r->Part_0.part
                == SyncPart::Users
            &&& stage.part == SyncPart::Roles ==> r is Part && r->Part_0.part
                == SyncPart::RoleBindings
            &&& stage.part == SyncPart::Webhooks ==> r is Part && r->Part_0.part
                == SyncPart::Workflows
            &&& stage.part == SyncPart::Workflows ==> r is Part && r->Part_0.part
                == SyncPart::ExecutionPolicies
        },
{
}

/// A part that fails rolls everything back with its error; a commit that fails
/// is the answer, and only one that succeeds is followed by a reload, whose
/// failure changes nothing.
pub proof fn synchronization_is_all_or_nothing(
    stage: Syncing,
    e: AppError,
    failed: SyncStep,
    undo: SyncRollback,
    undone: Result<(), AppError>,
    told: AppError,
    commit: SyncCommit,
    reply: Result<(), AppError>,
    c: Result<SyncReload, AppError>,
    reload: SyncReload,
    reloaded: Result<(), AppError>,
    summary: SyncSummary,
)
    requires
        call_ensures(Syncing::taken, (stage, Err::<PartCounts, AppError>(e)), failed),
        call_ensures(SyncRollback::rolled_back, (undo, undone), told),
        call_ensures(SyncCommit::committed, (commit, reply), c),
        call_ensures(SyncReload::reloaded, (reload, reloaded), summary),
    ensures
        failed is Rollback && failed->Rollback_0.error == e,
        told == undo.error,
        c is Ok <==> reply is Ok,
        c is Ok ==> c->Ok_0.summary == commit.summary,
        c is Err ==> c->Err_0 == reply->Err_0,
        summary == reload.summary,
{
}

/// The counts of a part are told under that part, and those of the others stay.
pub proof fn counts_are_told_under_their_part(
    stage: Syncing,
    c: PartCounts,
    r: SyncStep,
    summary: SyncSummary,
)
    requires
        call_ensures(Syncing::taken, (stage, Ok::<PartCounts, AppError>(c)), r),
        r matches SyncStep::Limit(s) ==> summary == s.summary,
        r matches SyncStep::Part(s) ==> summary == s.summary,
        r matches SyncStep::Commit(s) ==> summary == s.summary,
    ensures
        !(r is Rollback),
        summary.databases == if stage.part == SyncPart::Databases { c } else {
            stage.summary.databases
        },
        summary.users == if stage.part == SyncPart::Users { c } else { stage.summary.users },
        summary.groups == if stage.part == SyncPart::Groups { c } else { stage.summary.groups },
        summary.roles == if stage.part == SyncPart::Roles { c } else { stage.summary.roles },
        summary.role_bindings == if stage.part == SyncPart::RoleBindings { c } else {
            stage.summary.role_bindings
        },
        summary.webhooks == if stage.part == SyncPart::Webhooks { c } else {
            stage.summary.webhooks
        },
        summary.workflows == if stage.part == SyncPart::Workflows { c } else {
            stage.summary.workflows
        },
        summary.execution_policies == if stage.part == SyncPart::ExecutionPolicies { c } else {
            stage.summary.execution_policies
        },
        summary.result_policies == if stage.part == SyncPart::ResultPolicies { c } else {
            stage.summary.result_policies
        },
        summary.notification_policies == if stage.part == SyncPart::NotificationPolicies { c } else {
            stage.summary.notification_policies
        },
{
}

/// What a configuration creates is numbered in its order, and nothing of it
/// passes without approval by itself.
pub proof fn created_records_are_numbered(
    uc: SyncConfig,
    workflows: Vec<WorkflowInput>,
    replies: Vec<WorkflowReplies>,
    plan: WorkflowPlan,
    bindings: Vec<RoleBindingInput>,
    b: Vec<RoleBinding>,
    k: int,
)
    requires
        replies@.len() == workflows@.len(),
        call_ensures(
            SyncConfig::sync_workflows,
            (&uc, &workflows, &replies),
            Ok::<WorkflowPlan, AppError>(plan),
        ),
        call_ensures(SyncConfig::sync_role_bindings, (&uc, &bindings), b),
        0 <= k,
    ensures
        k < workflows@.len() ==> plan.create@[k].id@ == "wf-"@ + decimal(k as nat)
            && plan.create@[k].auto_approve is None && plan.create@[k].approval_ttl_secs is None,
        k < bindings@.len() ==> b@[k].id@ == "rb-"@ + decimal(k as nat),
        plan.legacy_ids@.len() == 100,
        k < 100 ==> plan.legacy_ids@[k]@ == "config-wf-"@ + decimal(k as nat),
{
    if k < workflows@.len() {
        assert(workflow_of(plan.create@[k], workflow_id(k), workflows@[k], replies@[k]));
    }
    if k < bindings@.len() {
        assert(binding_of(b@[k], bindings@[k], k));
    }
}

/// Webhooks and execution policies of an earlier numbering give way, a hundred
/// of each.
pub proof fn earlier_numberings_give_way(
    uc: SyncConfig,
    webhooks: Vec<WebhookInput>,
    reachable: Vec<Result<(), String>>,
    now: Timestamp,
    w: WebhookPlan,
    drafts: ExecutionPolicyDrafts,
    checks: Vec<Result<(), String>>,
    e: ExecutionPolicyPlan,
    k: int,
)
    requires
        reachable@.len() == webhooks@.len(),
        call_ensures(
            SyncConfig::sync_webhooks,
            (&uc, &webhooks, &reachable, now),
            Ok::<WebhookPlan, AppError>(w),
        ),
        call_ensures(
            ExecutionPolicyDrafts::checked,
            (drafts, &checks),
            Ok::<ExecutionPolicyPlan, AppError>(e),
        ),
        0 <= k < 100,
    ensures
        w.legacy_ids@.len() == 100,
        w.legacy_ids@[k]@ == "config-wh-"@ + decimal(k as nat),
        e.legacy_ids@.len() == 100,
        e.legacy_ids@[k]@ == "config-ep-"@ + decimal(k as nat),
{
}

/// A user of the configuration starts with no groups or roles of their own, and
/// nothing else is known of them.
pub proof fn configured_users_start_plain(
    uc: SyncConfig,
    users: Vec<UserInput>,
    now: Timestamp,
    r: Vec<User>,
    k: int,
)
    requires
        call_ensures(SyncConfig::sync_users, (&uc, &users, now), r),
        0 <= k < users@.len(),
    ensures
        r@[k].groups@.len() == 0,
        r@[k].roles@.len() == 0,
        r@[k].display_name is None,
        r@[k].email is None,
        r@[k].last_seen_at is None,
        r@[k].updated_at == now,
{
    assert(user_of(r@[k], users@[k], now));
}

proof fn lemma_execution_scopes(
    policies: Seq<ExecutionPolicyInput>,
    names: Seq<NamePair>,
    i: int,
)
    requires
        0 <= i,
    ensures
        first_execution_policy_error(policies, names, i) is None <==> forall|k: int|
            i <= k < policies.len() ==> usable((#[trigger] policies[k]).database@, names[k].database)
                && usable(policies[k].environment@, names[k].environment),
    decreases policies.len() - i,
{
    if i < policies.len() {
        lemma_execution_scopes(policies, names, i + 1);
    }
}

proof fn lemma_notification_scopes(
    policies: Seq<NotificationPolicyInput>,
    names: Seq<NamePair>,
    i: int,
)
    requires
        0 <= i,
    ensures
        first_notification_policy_error(policies, names, i) is None <==> forall|k: int|
            i <= k < policies.len() ==> usable((#[trigger] policies[k]).database@, names[k].database)
                && usable(policies[k].environment@, names[k].environment),
    decreases policies.len() - i,
{
    if i < policies.len() {
        lemma_notification_scopes(policies, names, i + 1);
    }
}

proof fn lemma_access(access: Seq<Result<Selector, String>>, i: int, k: int)
    requires
        0 <= k,
    ensures
        first_access_error(access, i, k) is None <==> forall|j: int|
            k <= j < access.len() ==> (#[trigger] access[j]) is Ok,
    decreases access.len() - k,
{
    if k < access.len() {
        lemma_access(access, i, k + 1);
    }
}

/// Whether a result policy of the configuration can be taken over.
pub open spec fn usable_result_policy(p: ResultPolicyInput, replies: ResultPolicyReplies) -> bool {
    &&& usable(p.database@, replies.names.database)
    &&& usable(p.environment@, replies.names.environment)
    &&& forall|j: int| 0 <= j < replies.access@.len() ==> (#[trigger] replies.access@[j]) is Ok
}

proof fn lemma_result_policies(
    policies: Seq<ResultPolicyInput>,
    replies: Seq<ResultPolicyReplies>,
    i: int,
)
    requires
        0 <= i,
    ensures
        first_result_policy_error(policies, replies, i) is None <==> forall|k: int|
            i <= k < policies.len() ==> usable_result_policy(#[trigger] policies[k], replies[k]),
    decreases policies.len() - i,
{
    if i < policies.len() {
        lemma_result_policies(policies, replies, i + 1);
        lemma_access(replies[i].access@, i, 0);
    }
}

/// Policies are taken over all or not at all: exactly if the names and selectors
/// of every one can be read.
pub proof fn policies_are_taken_over_all_or_none(
    uc: SyncConfig,
    ep: Vec<ExecutionPolicyInput>,
    names: Vec<NamePair>,
    defaults: ExecutionPolicy,
    re: Result<ExecutionPolicyDrafts, AppError>,
    rp: Vec<ResultPolicyInput>,
    replies: Vec<ResultPolicyReplies>,
    rr: Result<Vec<ResultPolicy>, AppError>,
    np: Vec<NotificationPolicyInput>,
    rn: Result<Vec<NotificationPolicy>, AppError>,
)
    requires
        call_ensures(SyncConfig::sync_execution_policies, (&uc, &ep, &names, &defaults), re),
        call_ensures(SyncConfig::sync_result_policies, (&uc, &rp, &replies), rr),
        call_ensures(SyncConfig::sync_notification_policies, (&uc, &np, &names), rn),
    ensures
        re is Ok <==> forall|k: int|
            0 <= k < ep@.len() ==> usable((#[trigger] ep@[k]).database@, names@[k].database)
                && usable(ep@[k].environment@, names@[k].environment),
        rr is Ok <==> forall|k: int|
            0 <= k < rp@.len() ==> usable_result_policy(#[trigger] rp@[k], replies@[k]),
        rn is Ok <==> forall|k: int|
            0 <= k < np@.len() ==> usable((#[trigger] np@[k]).database@, names@[k].database)
                && usable(np@[k].environment@, names@[k].environment),
{
    lemma_execution_scopes(ep@, names@, 0);
    lemma_result_policies(rp@, replies@, 0);
    lemma_notification_scopes(np@, names@, 0);
}

/// A policy applies to what the configuration names: a wildcard stays one, any
/// other name is as it was read.
pub proof fn policies_apply_to_what_they_name(
    uc: SyncConfig,
    rp: Vec<ResultPolicyInput>,
    replies: Vec<ResultPolicyReplies>,
    r: Vec<ResultPolicy>,
    np: Vec<NotificationPolicyInput>,
    names: Vec<NamePair>,
    n: Vec<NotificationPolicy>,
    k: int,
    j: int,
)
    requires
        call_ensures(
            SyncConfig::sync_result_policies,
            (&uc, &rp, &replies),
            Ok::<Vec<ResultPolicy>, AppError>(r),
        ),
        call_ensures(
            SyncConfig::sync_notification_policies,
            (&uc, &np, &names),
            Ok::<Vec<NotificationPolicy>, AppError>(n),
        ),
        0 <= k < rp@.len(),
        0 <= j < np@.len(),
    ensures
        r@[k].id@ == "rp-"@ + decimal(k as nat),
        n@[j].id@ == "np-"@ + decimal(j as nat),
        rp@[k].database@ == "*"@ ==> r@[k].database@ == "*"@,
        rp@[k].database@ != "*"@ ==> replies@[k].names.database is Ok && r@[k].database@
            == replies@[k].names.database->Ok_0@,
        rp@[k].environment@ == "*"@ ==> r@[k].environment@ == "*"@,
        rp@[k].environment@ != "*"@ ==> replies@[k].names.environment is Ok && r@[k].environment@
            == replies@[k].names.environment->Ok_0@,
        np@[j].database@ == "*"@ ==> n@[j].database@ == "*"@,
        np@[j].database@ != "*"@ ==> names@[j].database is Ok && n@[j].database@
            == names@[j].database->Ok_0@,
        np@[j].environment@ == "*"@ ==> n@[j].environment@ == "*"@,
        np@[j].environment@ != "*"@ ==> names@[j].environment is Ok && n@[j].environment@
            == names@[j].environment->Ok_0@,
{
    lemma_result_policies(rp@, replies@, 0);
    lemma_notification_scopes(np@, names@, 0);
    assert(usable_result_policy(rp@[k], replies@[k]));
    assert(result_policy_of(r@[k], rp@[k], replies@[k], k));
    assert(usable(np@[j].database@, names@[j].database));
    assert(notification_policy_of(n@[j], np@[j], names@[j], j));
}

/// An execution policy is numbered in its order and keeps its environment and
/// what it says of migrations.
pub proof fn execution_policies_keep_their_scope(
    uc: SyncConfig,
    policies: Vec<ExecutionPolicyInput>,
    names: Vec<NamePair>,
    defaults: ExecutionPolicy,
    drafts: ExecutionPolicyDrafts,
    k: int,
)
    requires
        call_ensures(
            SyncConfig::sync_execution_policies,
            (&uc, &policies, &names, &defaults),
            Ok::<ExecutionPolicyDrafts, AppError>(drafts),
        ),
        0 <= k < policies@.len(),
    ensures
        drafts.policies@[k].id@ == "ep-"@ + decimal(k as nat),
        policies@[k].environment@ == "*"@ ==> drafts.policies@[k].environment@ == "*"@,
        policies@[k].environment@ != "*"@ ==> names@[k].environment is Ok
            && drafts.policies@[k].environment@ == names@[k].environment->Ok_0@,
        drafts.policies@[k].migration_lease_duration_secs
            == policies@[k].migration_lease_duration_secs,
        drafts.policies@[k].migration_statement_timeout_secs
            == policies@[k].migration_statement_timeout_secs,
{
    lemma_execution_scopes(policies@, names@, 0);
    assert(usable(policies@[k].environment@, names@[k].environment));
    assert(execution_policy_of(drafts.policies@[k], policies@[k], names@[k], defaults, k));
}

/// A role keeps its environments in their places.
pub proof fn roles_keep_their_environments(
    uc: SyncConfig,
    roles: Vec<RoleInput>,
    replies: Vec<RoleReplies>,
    r: RolePlan,
    k: int,
    e: int,
)
    requires
        replies@.len() == roles@.len(),
        call_ensures(SyncConfig::sync_roles, (&uc, &roles, &replies), r),
        0 <= k < r.create@.len(),
        0 <= e < roles@[k].environments@.len(),
    ensures
        r.create@[k].environments@.len() == roles@[k].environments@.len(),
        roles@[k].environments@[e]@ == "*"@ ==> r.create@[k].environments@[e]@ == "*"@,
        roles@[k].environments@[e]@ != "*"@ ==> r.create@[k].environments@[e]@
            == replies@[k].environments@[e]->Ok_0@,
{
    lemma_bad_role(roles@, replies@, 0);
    assert(role_of(r.create@[k], roles@[k], replies@[k]));
    assert(texts(r.create@[k].environments@).len() == r.create@[k].environments@.len());
    assert(texts(r.create@[k].environments@).len() == roles@[k].environments@.len());
    assert(texts(r.create@[k].environments@)[e] == r.create@[k].environments@[e]@);
}

/// Too many of something is told with how many there may be and how many there
/// are.
pub proof fn exceeded_limits_are_told(what: Limited, have: u32, max: u32, r: Result<(), AppError>)
    requires
        call_ensures(check_limit, (what, have, max), r),
        have > max,
    ensures
        r is Err && r->Err_0 is Validation,
        what == Limited::Database ==> r->Err_0->Validation_0@ == "database"@
            + " limit exceeded (max "@ + decimal(max as nat) + ", have "@ + decimal(have as nat)
            + ")"@,
        what == Limited::Role ==> r->Err_0->Validation_0@ == "role"@ + " limit exceeded (max "@
            + decimal(max as nat) + ", have "@ + decimal(have as nat) + ")"@,
        what == Limited::Webhook ==> r->Err_0->Validation_0@ == "webhook"@
            + " limit exceeded (max "@ + decimal(max as nat) + ", have "@ + decimal(have as nat)
            + ")"@,
        what == Limited::Workflow ==> r->Err_0->Validation_0@ == "workflow"@
            + " limit exceeded (max "@ + decimal(max as nat) + ", have "@ + decimal(have as nat)
            + ")"@,
{
    assert(r->Err_0@ is Validation);
}

} // verus!
