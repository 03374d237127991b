//! What would become of a statement if it were requested.

use vstd::prelude::*;

use crate::domain::{
    Agent, AgentStatus, ApproverGroup, AuthUser, Operation, Permission, Workflow, WorkflowStep,
};
use crate::error::{AppError, AuthzError, ErrorView};
use crate::json::Json;
use crate::text::{
    byte_len, concat5, copy_texts, decimal, decimal_text, is_text, lowercase, same_text, texts,
    to_lowercase, utf8_len,
};
use crate::use_cases::create_request::{
    dialect_named, ClassifyError, Dialect, RiskAssessment, RiskInput, RuleAction,
};
use crate::use_cases::decision_trace::{Outcome, RiskLevel, SchemaStatus};
use crate::use_cases::risk_analysis::{TableRef, TableRiskInfo};
use crate::use_cases::schema_sync::{is_registered_for, registered_for};

verus! {

/// A statement to be looked at.
pub struct PreflightInput {
    pub database: String,
    pub environment: String,
    pub sql: String,
    pub operation_override: Option<String>,
    pub include_explain: bool,
    pub explain_timeout_ms: u64,
}

/// What would become of a statement.
pub struct PreflightResult {
    pub status: PreflightStatus,
    pub risk: RiskLevel,
    pub classification: PreflightClassification,
    pub review: PreflightReview,
    pub risk_assessment: PreflightRiskAssessment,
    pub policy: PreflightPolicy,
    pub impact: PreflightImpact,
    pub fix_hints: Vec<String>,
    pub retryable: bool,
    pub next_actions: Vec<String>,
}

/// Whether a statement can be requested.
#[derive(Clone, Copy, Debug, PartialEq, Eq, Structural)]
pub enum PreflightStatus {
    Requestable,
    Blocked,
    Warning,
}

/// What a statement is taken for.
pub struct PreflightClassification {
    pub statement_type: String,
    pub operation: String,
    pub mutating: bool,
    pub ddl: bool,
    pub multi_statement: bool,
    pub statement_count: usize,
}

/// What the review of a statement found.
pub struct PreflightReview {
    pub findings: Vec<PreflightFinding>,
    pub blocked: bool,
}

/// A finding of the review.
pub struct PreflightFinding {
    pub code: String,
    pub action: String,
    pub message: String,
    pub statement_index: usize,
}

/// How risky a statement is.
pub struct PreflightRiskAssessment {
    pub level: RiskLevel,
    pub factors: Vec<String>,
}

/// What the workflow asks for.
pub struct PreflightPolicy {
    pub sql_valid: bool,
    pub caller_can_submit: bool,
    pub would_auto_approve: bool,
    pub requires_approval: bool,
    pub approvers: Vec<PreflightApprover>,
    pub break_glass_allowed: bool,
    pub workflow_id: Option<String>,
    pub require_reason: bool,
}

/// An approver that a workflow asks for.
pub struct PreflightApprover {
    pub selector: String,
    pub min: u32,
}

/// What the plan of a statement says. The estimated cost, which no step here
/// sets, is left to who runs the plan.
pub struct PreflightImpact {
    pub status: ImpactStatus,
    pub explain_plan: Option<Json>,
    pub estimated_rows: Option<i64>,
    pub index_used: Option<bool>,
}

/// Whether the plan of a statement was looked at.
#[derive(Clone, Copy, Debug, PartialEq, Eq, Structural)]
pub enum ImpactStatus {
    Completed,
    Timeout,
    Skipped,
    NotAvailable,
    DisabledByPolicy,
    Error,
}

/// A plan that an agent is to make.
pub struct PreflightExplainRequest {
    pub job_id: String,
    pub database: String,
    pub environment: String,
    pub sql: String,
    pub timeout_ms: u64,
    pub user_id: String,
}

/// The use case with its settings.
pub struct PreflightUseCase {
    pub max_sql_length: usize,
}

/// A statement on its way, with who asks.
pub struct PreflightCase {
    pub input: PreflightInput,
    pub user_id: String,
    pub with_explain: bool,
}

/// Due: authorize the caller for `RequestPreflight` and, where the plan is asked
/// for, `RequestPreflightExplain` on the database and environment.
pub struct PreflightStart {
    pub input: PreflightInput,
    pub user_id: String,
}

/// Due: whether the database is registered in the environment.
pub struct PreflightRegistry {
    pub case: PreflightCase,
}

/// Due: the dialect of the database.
pub struct PreflightDialect {
    pub case: PreflightCase,
}

/// Due: classify the statement in the dialect.
pub struct PreflightClassify {
    pub case: PreflightCase,
    pub dialect: Dialect,
}

/// What the classifier takes a statement for.
#[derive(Clone, Copy, Debug, PartialEq, Eq, Structural)]
pub struct StatementClass {
    pub operation: Operation,
    pub read_only: bool,
    pub is_ddl_only: bool,
    pub statement_count: usize,
}

/// What a classification or a workflow leads to: the answer, or the next step.
pub enum PreflightStep<T> {
    Answer(PreflightResult),
    Next(T),
}

/// Due: the workflow for the operation on the database and environment.
pub struct PreflightWorkflow {
    pub case: PreflightCase,
    pub dialect: Dialect,
    pub class: StatementClass,
}

/// Due: review the statement by the rules of the database and environment, and
/// the tables that it names.
pub struct PreflightReviewing {
    pub case: PreflightCase,
    pub dialect: Dialect,
    pub class: StatementClass,
    pub workflow: Workflow,
}

/// A finding of the review: the name of the rule and what it says.
pub struct ReviewFinding {
    pub rule: String,
    pub action: RuleAction,
    pub message: String,
    pub statement_index: usize,
}

/// What the review found.
pub struct ReviewOutcome {
    pub findings: Vec<ReviewFinding>,
    pub blocked: bool,
}

/// Due: where `needs_tables` says so, what the schema says of the tables.
pub struct PreflightTables {
    pub case: PreflightCase,
    pub class: StatementClass,
    pub workflow: Workflow,
    pub review: ReviewOutcome,
    pub tables: Vec<TableRef>,
}

/// Due: the risk of the statement.
pub struct PreflightRisk {
    pub case: PreflightCase,
    pub class: StatementClass,
    pub workflow: Workflow,
    pub review: ReviewOutcome,
    pub risk_input: RiskInput,
}

/// Due: whether the workflow approves at this risk, whether the risk is above
/// the highest that it passes, whether the caller has the permission to submit
/// and `RequestBreakGlass`, and the hints for the findings.
pub struct PreflightDecision {
    pub case: PreflightCase,
    pub class: StatementClass,
    pub workflow: Workflow,
    pub review: ReviewOutcome,
    pub risk: RiskAssessment,
}

/// What others decide about a statement.
pub struct PreflightReplies {
    pub outcome: Outcome,
    pub above_threshold: bool,
    pub can_submit: bool,
    pub can_break_glass: bool,
    pub hints: Vec<String>,
}

/// Due: where `needs_agents` says so, whether an agent can make the plan.
pub struct PreflightPlan {
    pub case: PreflightCase,
    pub explains: bool,
    pub result: PreflightResult,
}

/// What the agents lead to.
pub enum PreflightEnd {
    /// The answer, without a plan.
    Done(PreflightResult),
    /// Due: a fresh identifier for the job that makes the plan.
    Explain(PreflightJobDue),
}

/// Due: a fresh identifier for the job.
pub struct PreflightJobDue {
    pub case: PreflightCase,
    pub result: PreflightResult,
}

/// The message about a statement that is too long.
pub open spec fn too_long_text(length: nat, max: nat) -> Seq<char> {
    "SQL exceeds max length ("@ + decimal(length) + " > "@ + decimal(max) + ")"@
}

impl PreflightUseCase {
    /// Starts a look at a statement.
    pub fn execute(&self, user: &AuthUser, input: PreflightInput) -> (r: Result<
        PreflightStart,
        AppError,
    >)
        ensures
            if utf8_len(input.sql@) > self.max_sql_length {
                r matches Err(e) && e@ == ErrorView::Validation(
                    too_long_text(utf8_len(input.sql@), self.max_sql_length as nat),
                )
            } else {
                r matches Ok(s) && s.input == input && s.user_id == user.subject_id
            },
    {
        let length: usize = byte_len(input.sql.as_str());
        if length > self.max_sql_length {
            return Err(
                AppError::Validation(
                    concat5(
                        "SQL exceeds max length (",
                        decimal_text(length as u64).as_str(),
                        " > ",
                        decimal_text(self.max_sql_length as u64).as_str(),
                        ")",
                    ),
                ),
            );
        }
        Ok(PreflightStart { input, user_id: user.subject_id.clone() })
    }
}

impl PreflightStart {
    /// Takes the answers of the authorizer. Without the second permission the
    /// plan is left out; `explain_allowed` counts only where it is asked for.
    pub fn authorized(self, reply: Result<(), AuthzError>, explain_allowed: bool) -> (r: Result<
        PreflightRegistry,
        AppError,
    >)
        ensures
            match reply {
                Err(e) => r matches Err(x) && x@ == ErrorView::Forbidden(e@),
                Ok(_) => r matches Ok(s) && {
                    &&& s.case.input == self.input
                    &&& s.case.user_id == self.user_id
                    &&& s.case.with_explain == (self.input.include_explain && explain_allowed)
                },
            },
    {
        match reply {
            Err(e) => Err(AppError::Forbidden(e)),
            Ok(_) => {
                let with_explain: bool = self.input.include_explain && explain_allowed;
                Ok(
                    PreflightRegistry {
                        case: PreflightCase {
                            input: self.input,
                            user_id: self.user_id,
                            with_explain,
                        },
                    },
                )
            },
        }
    }
}

impl PreflightRegistry {
    /// Takes whether the database is registered in the environment.
    pub fn registered(self, known: bool) -> (r: Result<PreflightDialect, AppError>)
        ensures
            if known {
                r matches Ok(s) && s.case == self.case
            } else {
                r matches Err(e) && e@ == ErrorView::Validation(
                    "database '"@ + self.case.input.database@ + "' environment '"@
                        + self.case.input.environment@ + "' is not registered"@,
                )
            },
    {
        if !known {
            return Err(
                AppError::Validation(
                    concat5(
                        "database '",
                        self.case.input.database.as_str(),
                        "' environment '",
                        self.case.input.environment.as_str(),
                        "' is not registered",
                    ),
                ),
            );
        }
        Ok(PreflightDialect { case: self.case })
    }
}

impl PreflightDialect {
    /// Takes the dialect that the schema names.
    pub fn dialect(self, name: Option<String>) -> (r: PreflightClassify)
        ensures
            r.case == self.case,
            r.dialect == dialect_named(name),
    {
        let dialect: Dialect = if is_text(&name, "mysql") {
            Dialect::MySql
        } else {
            Dialect::PostgreSql
        };
        PreflightClassify { case: self.case, dialect }
    }
}

/// Whether nothing was looked at in the plan.
pub open spec fn no_plan(i: PreflightImpact, status: ImpactStatus) -> bool {
    &&& i.status == status
    &&& i.explain_plan is None
    &&& i.estimated_rows is None
    &&& i.index_used is None
}

fn empty_impact(status: ImpactStatus) -> (r: PreflightImpact)
    ensures
        no_plan(r, status),
{
    PreflightImpact { status, explain_plan: None, estimated_rows: None, index_used: None }
}

/// Whether `r` says that the statement is blocked for the reason, with nothing
/// else known of it.
pub open spec fn blocked_for(r: PreflightResult, reason: Seq<char>) -> bool {
    &&& r.status == PreflightStatus::Blocked
    &&& r.risk == RiskLevel::Unknown
    &&& r.classification.statement_type@ == "unknown"@
    &&& r.classification.operation@ == "unknown"@
    &&& !r.classification.mutating
    &&& !r.classification.ddl
    &&& !r.classification.multi_statement
    &&& r.classification.statement_count == 0
    &&& r.review.findings@.len() == 1
    &&& r.review.findings@[0].code@ == "rejected"@
    &&& r.review.findings@[0].action@ == "block"@
    &&& r.review.findings@[0].message@ == reason
    &&& r.review.findings@[0].statement_index == 0
    &&& r.review.blocked
    &&& r.risk_assessment.level == RiskLevel::Unknown
    &&& r.risk_assessment.factors@.len() == 0
    &&& !r.policy.sql_valid
    &&& !r.policy.caller_can_submit
    &&& !r.policy.would_auto_approve
    &&& !r.policy.requires_approval
    &&& r.policy.approvers@.len() == 0
    &&& !r.policy.break_glass_allowed
    &&& r.policy.workflow_id is None
    &&& !r.policy.require_reason
    &&& no_plan(r.impact, ImpactStatus::Skipped)
    &&& texts(r.fix_hints@) == seq![reason]
    &&& !r.retryable
    &&& r.next_actions@.len() == 0
}

/// The answer for a statement that is blocked before it is reviewed.
pub fn blocked_result(reason: &str) -> (r: PreflightResult)
    ensures
        blocked_for(r, reason@),
{
    let mut findings: Vec<PreflightFinding> = Vec::new();
    findings.push(
        PreflightFinding {
            code: "rejected".to_string(),
            action: "block".to_string(),
            message: reason.to_string(),
            statement_index: 0,
        },
    );
    let mut fix_hints: Vec<String> = Vec::new();
    fix_hints.push(reason.to_string());
    assert(texts(fix_hints@) =~= seq![reason@]);
    PreflightResult {
        status: PreflightStatus::Blocked,
        risk: RiskLevel::Unknown,
        classification: PreflightClassification {
            statement_type: "unknown".to_string(),
            operation: "unknown".to_string(),
            mutating: false,
            ddl: false,
            multi_statement: false,
            statement_count: 0,
        },
        review: PreflightReview { findings, blocked: true },
        risk_assessment: PreflightRiskAssessment {
            level: RiskLevel::Unknown,
            factors: Vec::new(),
        },
        policy: PreflightPolicy {
            sql_valid: false,
            caller_can_submit: false,
            would_auto_approve: false,
            requires_approval: false,
            approvers: Vec::new(),
            break_glass_allowed: false,
            workflow_id: None,
            require_reason: false,
        },
        impact: empty_impact(ImpactStatus::Skipped),
        fix_hints,
        retryable: false,
        next_actions: Vec::new(),
    }
}

/// Why a classified statement is refused: the caller names another operation.
pub open spec fn override_error(named: Option<String>, operation: Operation) -> Option<ErrorView> {
    match named {
        Some(op) => if op@ != operation.text() {
            Some(
                ErrorView::Validation(
                    "operation override '"@ + op@ + "' disagrees with classified '"@
                        + operation.text() + "'"@,
                ),
            )
        } else {
            None
        },
        None => None,
    }
}

impl PreflightClassify {
    /// Takes what the classifier says. A rejected statement is answered as
    /// blocked.
    pub fn classified(self, reply: Result<StatementClass, ClassifyError>) -> (r: Result<
        PreflightStep<PreflightWorkflow>,
        AppError,
    >)
        ensures
            match reply {
                Err(ClassifyError::Rejected { reason }) => r matches Ok(PreflightStep::Answer(a))
                    && blocked_for(a, reason@),
                Err(ClassifyError::Empty) => r matches Err(e) && e@ == ErrorView::Validation(
                    "SQL is empty"@,
                ),
                Ok(class) => match r {
                    Err(e) => override_error(self.case.input.operation_override, class.operation)
                        == Some(e@),
                    Ok(PreflightStep::Answer(_)) => false,
                    Ok(PreflightStep::Next(s)) => {
                        &&& override_error(self.case.input.operation_override, class.operation) is None
                        &&& s.case == self.case
                        &&& s.dialect == self.dialect
                        &&& s.class == class
                    },
                },
            },
    {
        match reply {
            Err(ClassifyError::Rejected { reason }) => Ok(
                PreflightStep::Answer(blocked_result(reason.as_str())),
            ),
            Err(ClassifyError::Empty) => Err(AppError::Validation("SQL is empty".to_string())),
            Ok(class) => {
                match &self.case.input.operation_override {
                    Some(op) => {
                        let classified: &str = class.operation.as_str();
                        if !same_text(op.as_str(), classified) {
                            return Err(
                                AppError::Validation(
                                    concat5(
                                        "operation override '",
                                        op.as_str(),
                                        "' disagrees with classified '",
                                        classified,
                                        "'",
                                    ),
                                ),
                            );
                        }
                    },
                    None => {},
                }
                Ok(
                    PreflightStep::Next(
                        PreflightWorkflow { case: self.case, dialect: self.dialect, class },
                    ),
                )
            },
        }
    }
}

impl PreflightWorkflow {
    /// Takes the workflow. Without one the statement is blocked.
    pub fn workflow(self, workflow: Option<Workflow>) -> (r: PreflightStep<PreflightReviewing>)
        ensures
            match workflow {
                None => r matches PreflightStep::Answer(a) && blocked_for(
                    a,
                    "no workflow configured (fail-closed)"@,
                ),
                Some(w) => r matches PreflightStep::Next(s) && {
                    &&& s.case == self.case
                    &&& s.dialect == self.dialect
                    &&& s.class == self.class
                    &&& s.workflow == w
                },
            },
    {
        match workflow {
            None => PreflightStep::Answer(blocked_result("no workflow configured (fail-closed)")),
            Some(workflow) => PreflightStep::Next(
                PreflightReviewing {
                    case: self.case,
                    dialect: self.dialect,
                    class: self.class,
                    workflow,
                },
            ),
        }
    }
}

impl PreflightReviewing {
    /// Takes what the review found and the tables that the statement names.
    pub fn reviewed(self, review: ReviewOutcome, tables: Vec<TableRef>) -> (r: PreflightTables)
        ensures
            r.case == self.case,
            r.class == self.class,
            r.workflow == self.workflow,
            r.review == review,
            r.tables == tables,
    {
        PreflightTables {
            case: self.case,
            class: self.class,
            workflow: self.workflow,
            review,
            tables,
        }
    }
}

/// The rows of the largest table; none where there is no table.
pub open spec fn most_rows(tables: Seq<TableRiskInfo>) -> i64
    decreases tables.len(),
{
    if tables.len() == 0 {
        0
    } else if tables.len() == 1 {
        tables[0].estimated_rows
    } else {
        let rest = most_rows(tables.drop_last());
        if tables.last().estimated_rows > rest {
            tables.last().estimated_rows
        } else {
            rest
        }
    }
}

fn find_most_rows(tables: &Vec<TableRiskInfo>) -> (r: i64)
    ensures
        r == most_rows(tables@),
{
    let n: usize = tables.len();
    if n == 0 {
        return 0;
    }
    let mut best: i64 = tables[0].estimated_rows;
    let mut i: usize = 1;
    while i < n
        invariant
            1 <= i <= n,
            n == tables@.len(),
            best == most_rows(tables@.take(i as int)),
        decreases n - i,
    {
        proof {
            assert(tables@.take(i + 1).drop_last() =~= tables@.take(i as int));
            assert(tables@.take(i + 1).last() == tables@[i as int]);
        }
        if tables[i].estimated_rows > best {
            best = tables[i].estimated_rows;
        }
        i += 1;
    }
    assert(tables@.take(n as int) =~= tables@);
    best
}

/// What is known of the tables: nothing where the statement names none.
pub open spec fn known_tables(named: Seq<TableRef>, infos: Seq<TableRiskInfo>) -> Seq<TableRiskInfo> {
    if named.len() == 0 {
        seq![]
    } else {
        infos
    }
}

/// Whether `r` is what the risk is evaluated on.
pub open spec fn risk_input_of(
    r: RiskInput,
    class: StatementClass,
    named: Seq<TableRef>,
    infos: Seq<TableRiskInfo>,
) -> bool {
    let known = known_tables(named, infos);
    &&& r.operation == class.operation
    &&& r.schema_status == if known.len() == 0 && named.len() > 0 {
        SchemaStatus::NotSynced
    } else {
        SchemaStatus::Ready
    }
    &&& r.tables@ == known
    &&& r.statement_count == class.statement_count
    &&& r.has_dml == !class.read_only
    &&& r.allow_read_only == class.read_only
    &&& !r.safe_ddl
    &&& r.max_estimated_rows == most_rows(known)
}

impl PreflightTables {
    /// Whether the schema is looked at.
    pub fn needs_tables(&self) -> (r: bool)
        ensures
            r == (self.tables@.len() > 0),
    {
        self.tables.len() > 0
    }

    /// Takes what the schema says of the tables; nothing where it cannot be
    /// read.
    pub fn resolved(self, infos: Vec<TableRiskInfo>) -> (r: PreflightRisk)
        ensures
            r.case == self.case,
            r.class == self.class,
            r.workflow == self.workflow,
            r.review == self.review,
            risk_input_of(r.risk_input, self.class, self.tables@, infos@),
    {
        let tables: Vec<TableRiskInfo> = if self.tables.len() == 0 {
            Vec::new()
        } else {
            infos
        };
        let max_estimated_rows: i64 = find_most_rows(&tables);
        let schema_status: SchemaStatus = if tables.len() == 0 && self.tables.len() > 0 {
            SchemaStatus::NotSynced
        } else {
            SchemaStatus::Ready
        };
        assert(tables@ =~= known_tables(self.tables@, infos@));
        PreflightRisk {
            case: self.case,
            class: self.class,
            workflow: self.workflow,
            review: self.review,
            risk_input: RiskInput {
                operation: self.class.operation,
                schema_status,
                tables,
                statement_count: self.class.statement_count,
                has_dml: !self.class.read_only,
                allow_read_only: self.class.read_only,
                safe_ddl: false,
                max_estimated_rows,
            },
        }
    }
}

impl PreflightRisk {
    /// Takes the risk of the statement.
    pub fn assessed(self, risk: RiskAssessment) -> (r: PreflightDecision)
        ensures
            r.case == self.case,
            r.class == self.class,
            r.workflow == self.workflow,
            r.review == self.review,
            r.risk == risk,
    {
        PreflightDecision {
            case: self.case,
            class: self.class,
            workflow: self.workflow,
            review: self.review,
            risk,
        }
    }
}

/// Whether `a` shows the approver of a step.
pub open spec fn shows_approver(a: PreflightApprover, g: ApproverGroup) -> bool {
    a.selector@ == g.selector.text() && a.min == g.min
}

/// The approvers of the steps, in order.
pub open spec fn all_approvers(steps: Seq<WorkflowStep>) -> Seq<ApproverGroup>
    decreases steps.len(),
{
    if steps.len() == 0 {
        seq![]
    } else {
        all_approvers(steps.drop_last()) + steps.last().approvers@
    }
}

/// Whether `shown` shows the approvers in order.
pub open spec fn shows_approvers(shown: Seq<PreflightApprover>, groups: Seq<ApproverGroup>) -> bool {
    &&& shown.len() == groups.len()
    &&& forall|k: int| 0 <= k < shown.len() ==> shows_approver(#[trigger] shown[k], groups[k])
}

/// Whether `p` says what the workflow asks for.
pub open spec fn policy_of(
    p: PreflightPolicy,
    workflow: Workflow,
    outcome: Outcome,
    review_blocked: bool,
    can_break_glass: bool,
    can_submit: bool,
) -> bool {
    &&& p.sql_valid == !review_blocked
    &&& p.caller_can_submit == can_submit
    &&& p.would_auto_approve == (outcome is AutoApproved)
    &&& p.requires_approval == (outcome is NeedsApproval)
    &&& shows_approvers(p.approvers@, all_approvers(workflow.steps@))
    &&& p.break_glass_allowed == can_break_glass
    &&& p.workflow_id == Some(workflow.id)
    &&& p.require_reason == workflow.require_reason
}

impl PreflightPolicy {
    /// What the workflow asks for.
    pub fn from_workflow(
        workflow: &Workflow,
        outcome: Outcome,
        review_blocked: bool,
        caller_has_break_glass: bool,
        caller_can_submit: bool,
    ) -> (r: PreflightPolicy)
        ensures
            policy_of(
                r,
                *workflow,
                outcome,
                review_blocked,
                caller_has_break_glass,
                caller_can_submit,
            ),
    {
        let mut approvers: Vec<PreflightApprover> = Vec::new();
        let n: usize = workflow.steps.len();
        let mut i: usize = 0;
        while i < n
            invariant
                i <= n,
                n == workflow.steps@.len(),
                shows_approvers(approvers@, all_approvers(workflow.steps@.take(i as int))),
            decreases n - i,
        {
            let groups = &workflow.steps[i].approvers;
            let ghost before = all_approvers(workflow.steps@.take(i as int));
            let m: usize = groups.len();
            let mut j: usize = 0;
            assert(before + groups@.take(0) =~= before);
            while j < m
                invariant
                    j <= m,
                    m == groups@.len(),
                    shows_approvers(approvers@, before + groups@.take(j as int)),
                decreases m - j,
            {
                let ghost shown = before + groups@.take(j as int);
                approvers.push(
                    PreflightApprover {
                        selector: groups[j].selector.to_text(),
                        min: groups[j].min,
                    },
                );
                j += 1;
                assert(before + groups@.take(j as int) =~= shown.push(groups@[j - 1]));
            }
            proof {
                assert(groups@.take(m as int) =~= groups@);
                assert(workflow.steps@.take(i + 1).drop_last() =~= workflow.steps@.take(i as int));
                assert(workflow.steps@.take(i + 1).last() == workflow.steps@[i as int]);
            }
            i += 1;
        }
        assert(workflow.steps@.take(n as int) =~= workflow.steps@);
        PreflightPolicy {
            sql_valid: !review_blocked,
            caller_can_submit,
            would_auto_approve: outcome == Outcome::AutoApproved,
            requires_approval: outcome == Outcome::NeedsApproval,
            approvers,
            break_glass_allowed: caller_has_break_glass,
            workflow_id: Some(workflow.id.clone()),
            require_reason: workflow.require_reason,
        }
    }
}

/// Whether the review warns.
pub open spec fn warns(findings: Seq<ReviewFinding>) -> bool {
    exists|i: int| 0 <= i < findings.len() && (#[trigger] findings[i]).action is Warn
}

/// Whether a finding is of the rule.
pub open spec fn found(findings: Seq<ReviewFinding>, rule: Seq<char>) -> bool {
    exists|i: int| 0 <= i < findings.len() && (#[trigger] findings[i]).rule@ == rule
}

fn has_warning(findings: &Vec<ReviewFinding>) -> (r: bool)
    ensures
        r == warns(findings@),
{
    let n: usize = findings.len();
    let mut i: usize = 0;
    while i < n
        invariant
            i <= n,
            n == findings@.len(),
            forall|k: int| 0 <= k < i ==> !((#[trigger] findings@[k]).action is Warn),
        decreases n - i,
    {
        if findings[i].action == RuleAction::Warn {
            assert(findings@[i as int].action is Warn);
            return true;
        }
        i += 1;
    }
    false
}

fn has_rule(findings: &Vec<ReviewFinding>, rule: &str) -> (r: bool)
    ensures
        r == found(findings@, rule@),
{
    let n: usize = findings.len();
    let mut i: usize = 0;
    while i < n
        invariant
            i <= n,
            n == findings@.len(),
            forall|k: int| 0 <= k < i ==> (#[trigger] findings@[k]).rule@ != rule@,
        decreases n - i,
    {
        if same_text(findings[i].rule.as_str(), rule) {
            return true;
        }
        i += 1;
    }
    false
}

/// Whether a workflow passes statements up to a risk.
pub open spec fn has_threshold(workflow: Workflow) -> bool {
    workflow.auto_approve is Some && workflow.auto_approve->0.max_risk_level is Some
}

/// Whether a statement can be requested: not where the review or the caller's
/// permissions block it, and with a warning where it is riskier than the
/// workflow passes or the review warns.
pub open spec fn status_of(
    review: ReviewOutcome,
    can_submit: bool,
    above_threshold: bool,
    workflow: Workflow,
) -> PreflightStatus {
    if review.blocked || !can_submit {
        PreflightStatus::Blocked
    } else if has_threshold(workflow) && above_threshold {
        PreflightStatus::Warning
    } else if warns(review.findings@) {
        PreflightStatus::Warning
    } else {
        PreflightStatus::Requestable
    }
}

/// Whether a statement can be requested. `above_threshold` counts only where the
/// workflow passes statements up to a risk.
pub fn determine_status(
    review: &ReviewOutcome,
    policy: &PreflightPolicy,
    above_threshold: bool,
    workflow: &Workflow,
) -> (r: PreflightStatus)
    ensures
        r == status_of(*review, policy.caller_can_submit, above_threshold, *workflow),
{
    if review.blocked {
        return PreflightStatus::Blocked;
    }
    if !policy.caller_can_submit {
        return PreflightStatus::Blocked;
    }
    match &workflow.auto_approve {
        Some(a) => {
            if a.max_risk_level.is_some() && above_threshold {
                return PreflightStatus::Warning;
            }
        },
        None => {},
    }
    if has_warning(&review.findings) {
        return PreflightStatus::Warning;
    }
    PreflightStatus::Requestable
}

/// What to do next about a blocked statement, by what was found.
pub open spec fn blocked_actions(findings: Seq<ReviewFinding>) -> Seq<Seq<char>> {
    let narrow = found(findings, "NoWhereUpdate"@) || found(findings, "NoWhereDelete"@);
    let batch = found(findings, "LargeInList"@);
    if narrow && batch {
        seq![
            "Run preflight again with a narrower WHERE clause"@,
            "Consider batching into smaller transactions"@,
        ]
    } else if narrow {
        seq!["Run preflight again with a narrower WHERE clause"@]
    } else if batch {
        seq!["Consider batching into smaller transactions"@]
    } else {
        seq!["Fix the blocking issues and run preflight again"@]
    }
}

/// What to do next.
pub open spec fn next_actions(status: PreflightStatus, findings: Seq<ReviewFinding>) -> Seq<Seq<char>> {
    match status {
        PreflightStatus::Requestable => seq![],
        PreflightStatus::Blocked => blocked_actions(findings),
        PreflightStatus::Warning => seq!["Review warnings before submitting the request"@],
    }
}

/// What to do next.
pub fn build_next_actions(status: PreflightStatus, findings: &Vec<ReviewFinding>) -> (r: Vec<String>)
    ensures
        texts(r@) == next_actions(status, findings@),
{
    let mut out: Vec<String> = Vec::new();
    match status {
        PreflightStatus::Requestable => {},
        PreflightStatus::Blocked => {
            if has_rule(findings, "NoWhereUpdate") || has_rule(findings, "NoWhereDelete") {
                out.push("Run preflight again with a narrower WHERE clause".to_string());
            }
            if has_rule(findings, "LargeInList") {
                out.push("Consider batching into smaller transactions".to_string());
            }
            if out.len() == 0 {
                out.push("Fix the blocking issues and run preflight again".to_string());
            }
        },
        PreflightStatus::Warning => {
            out.push("Review warnings before submitting the request".to_string());
        },
    }
    assert(texts(out@) =~= next_actions(status, findings@));
    out
}

/// The name of an operation as a type of statement.
pub open spec fn type_text(op: Operation) -> Seq<char> {
    match op {
        Operation::ExecuteSelect => "ExecuteSelect"@,
        Operation::ExecuteDml => "ExecuteDml"@,
        Operation::MigrateUp => "MigrateUp"@,
        Operation::MigrateDown => "MigrateDown"@,
        Operation::MigrateStatus => "MigrateStatus"@,
        Operation::MigrateRepair => "MigrateRepair"@,
    }
}

fn type_label(op: Operation) -> (r: &'static str)
    ensures
        r@ == type_text(op),
{
    match op {
        Operation::ExecuteSelect => "ExecuteSelect",
        Operation::ExecuteDml => "ExecuteDml",
        Operation::MigrateUp => "MigrateUp",
        Operation::MigrateDown => "MigrateDown",
        Operation::MigrateStatus => "MigrateStatus",
        Operation::MigrateRepair => "MigrateRepair",
    }
}

/// Whether `c` shows what the statement is taken for.
pub open spec fn shows_class(c: PreflightClassification, class: StatementClass) -> bool {
    &&& c.statement_type@ == type_text(class.operation)
    &&& c.operation@ == class.operation.text()
    &&& c.mutating == !class.read_only
    &&& c.ddl == class.is_ddl_only
    &&& c.multi_statement == (class.statement_count > 1)
    &&& c.statement_count == class.statement_count
}

/// Whether `f` shows a finding.
pub open spec fn shows_finding(f: PreflightFinding, from: ReviewFinding) -> bool {
    &&& f.code@ == lowercase(from.rule@)
    &&& f.action@ == match from.action {
        RuleAction::Block => "block"@,
        RuleAction::Warn => "warn"@,
        RuleAction::Off => "off"@,
    }
    &&& f.message == from.message
    &&& f.statement_index == from.statement_index
}

/// Whether `v` shows what the review found.
pub open spec fn shows_review(v: PreflightReview, review: ReviewOutcome) -> bool {
    &&& v.blocked == review.blocked
    &&& v.findings@.len() == review.findings@.len()
    &&& forall|k: int|
        0 <= k < v.findings@.len() ==> shows_finding(#[trigger] v.findings@[k], review.findings@[k])
}

fn show_review(review: &ReviewOutcome) -> (r: PreflightReview)
    ensures
        shows_review(r, *review),
{
    let mut findings: Vec<PreflightFinding> = Vec::new();
    let n: usize = review.findings.len();
    let mut i: usize = 0;
    while i < n
        invariant
            i <= n,
            n == review.findings@.len(),
            findings@.len() == i,
            forall|k: int|
                0 <= k < i ==> shows_finding(#[trigger] findings@[k], review.findings@[k]),
        decreases n - i,
    {
        let f = &review.findings[i];
        let action: &str = match f.action {
            RuleAction::Block => "block",
            RuleAction::Warn => "warn",
            RuleAction::Off => "off",
        };
        findings.push(
            PreflightFinding {
                code: to_lowercase(f.rule.as_str()),
                action: action.to_string(),
                message: f.message.clone(),
                statement_index: f.statement_index,
            },
        );
        i += 1;
    }
    PreflightReview { findings, blocked: review.blocked }
}

/// Whether `r` is the answer about a reviewed statement, but for the plan.
pub open spec fn answers(r: PreflightResult, d: PreflightDecision, replies: PreflightReplies) -> bool {
    let status = status_of(d.review, replies.can_submit, replies.above_threshold, d.workflow);
    &&& r.status == status
    &&& r.risk == d.risk.level
    &&& shows_class(r.classification, d.class)
    &&& shows_review(r.review, d.review)
    &&& r.risk_assessment.level == d.risk.level
    &&& texts(r.risk_assessment.factors@) == texts(d.risk.factors@)
    &&& policy_of(
        r.policy,
        d.workflow,
        replies.outcome,
        d.review.blocked,
        replies.can_break_glass,
        replies.can_submit,
    )
    &&& r.fix_hints == replies.hints
    &&& r.retryable == !(status is Requestable)
    &&& texts(r.next_actions@) == next_actions(status, d.review.findings@)
}

impl PreflightDecision {
    /// The permission that submitting the statement needs.
    pub fn submit_permission(&self) -> (r: Permission)
        ensures
            r == if self.class.read_only {
                Permission::RequestQuery
            } else {
                Permission::RequestExecute
            },
    {
        if self.class.read_only {
            Permission::RequestQuery
        } else {
            Permission::RequestExecute
        }
    }

    /// Takes what others decide.
    pub fn decided(self, replies: PreflightReplies) -> (r: PreflightPlan)
        ensures
            r.case == self.case,
            r.explains == self.workflow.explain,
            answers(r.result, self, replies),
            no_plan(
                r.result.impact,
                if self.case.with_explain && !self.workflow.explain {
                    ImpactStatus::DisabledByPolicy
                } else {
                    ImpactStatus::Skipped
                },
            ),
    {
        let policy = PreflightPolicy::from_workflow(
            &self.workflow,
            replies.outcome,
            self.review.blocked,
            replies.can_break_glass,
            replies.can_submit,
        );
        let status = determine_status(
            &self.review,
            &policy,
            replies.above_threshold,
            &self.workflow,
        );
        let impact_status: ImpactStatus = if self.case.with_explain && !self.workflow.explain {
            ImpactStatus::DisabledByPolicy
        } else {
            ImpactStatus::Skipped
        };
        let result = PreflightResult {
            status,
            risk: self.risk.level,
            classification: PreflightClassification {
                statement_type: type_label(self.class.operation).to_string(),
                operation: self.class.operation.as_str().to_string(),
                mutating: !self.class.read_only,
                ddl: self.class.is_ddl_only,
                multi_statement: self.class.statement_count > 1,
                statement_count: self.class.statement_count,
            },
            review: show_review(&self.review),
            risk_assessment: PreflightRiskAssessment {
                level: self.risk.level,
                factors: copy_texts(&self.risk.factors),
            },
            policy,
            impact: empty_impact(impact_status),
            fix_hints: replies.hints,
            retryable: status != PreflightStatus::Requestable,
            next_actions: build_next_actions(status, &self.review.findings),
        };
        PreflightPlan { case: self.case, explains: self.workflow.explain, result }
    }
}

/// Whether an agent can make a plan on the database and environment: it takes
/// work, is healthy, and is registered for exactly these.
pub open spec fn eligible_agent(a: Agent, healthy: bool, database: Seq<char>, environment: Seq<char>) -> bool {
    &&& !(a.status is Draining)
    &&& healthy
    &&& registered_for(a.databases@, database, environment)
}

/// Whether some agent can make a plan.
pub open spec fn some_eligible(
    agents: Seq<Agent>,
    healthy: Seq<bool>,
    database: Seq<char>,
    environment: Seq<char>,
) -> bool {
    exists|i: int|
        0 <= i < agents.len() && eligible_agent(
            #[trigger] agents[i],
            healthy[i],
            database,
            environment,
        )
}

/// Whether some agent can make a plan, given for each whether it is healthy.
pub fn has_eligible_agent(
    agents: &Vec<Agent>,
    healthy: &Vec<bool>,
    database: &str,
    environment: &str,
) -> (r: bool)
    requires
        healthy@.len() == agents@.len(),
    ensures
        r == some_eligible(agents@, healthy@, database@, environment@),
{
    let n: usize = agents.len();
    let mut i: usize = 0;
    while i < n
        invariant
            i <= n,
            n == agents@.len(),
            n == healthy@.len(),
            forall|k: int|
                0 <= k < i ==> !eligible_agent(
                    #[trigger] agents@[k],
                    healthy@[k],
                    database@,
                    environment@,
                ),
        decreases n - i,
    {
        let a = &agents[i];
        if a.status != AgentStatus::Draining && healthy[i] && is_registered_for(
            &a.databases,
            database,
            environment,
        ) {
            assert(eligible_agent(agents@[i as int], healthy@[i as int], database@, environment@));
            return true;
        }
        i += 1;
    }
    false
}

/// The same answer with another plan.
pub open spec fn same_answer(a: PreflightResult, b: PreflightResult) -> bool {
    a == (PreflightResult { impact: a.impact, ..b })
}

impl PreflightPlan {
    /// Whether the agents are looked at.
    pub fn needs_agents(&self) -> (r: bool)
        ensures
            r == (self.case.with_explain && self.explains),
    {
        self.case.with_explain && self.explains
    }

    /// Takes whether an agent can make the plan, which counts only where agents
    /// are looked at.
    pub fn agents(self, eligible: bool) -> (r: PreflightEnd)
        ensures
            if !(self.case.with_explain && self.explains) {
                r == PreflightEnd::Done(self.result)
            } else if !eligible {
                r matches PreflightEnd::Done(a) && same_answer(a, self.result) && no_plan(
                    a.impact,
                    ImpactStatus::NotAvailable,
                )
            } else {
                r matches PreflightEnd::Explain(s) && s.case == self.case && s.result == self.result
            },
    {
        if !self.needs_agents() {
            return PreflightEnd::Done(self.result);
        }
        if !eligible {
            let mut result = self.result;
            result.impact = empty_impact(ImpactStatus::NotAvailable);
            return PreflightEnd::Done(result);
        }
        PreflightEnd::Explain(PreflightJobDue { case: self.case, result: self.result })
    }
}

impl PreflightJobDue {
    /// Takes the fresh identifier of the job.
    pub fn identified(self, job_id: String) -> (r: (PreflightResult, PreflightExplainRequest))
        ensures
            r.0 == self.result,
            r.1.job_id == job_id,
            r.1.database == self.case.input.database,
            r.1.environment == self.case.input.environment,
            r.1.sql == self.case.input.sql,
            r.1.timeout_ms == self.case.input.explain_timeout_ms,
            r.1.user_id == self.case.user_id,
    {
        (
            self.result,
            PreflightExplainRequest {
                job_id,
                database: self.case.input.database,
                environment: self.case.input.environment,
                sql: self.case.input.sql,
                timeout_ms: self.case.input.explain_timeout_ms,
                user_id: self.case.user_id,
            },
        )
    }
}

/// A statement that the review blocks, or that the caller may not submit, is
/// never requestable.
pub proof fn blocked_is_not_requestable(
    review: ReviewOutcome,
    can_submit: bool,
    above_threshold: bool,
    workflow: Workflow,
)
    requires
        review.blocked || !can_submit,
    ensures
        status_of(review, can_submit, above_threshold, workflow) is Blocked,
{
}

/// A statement without a workflow, or one that the classifier rejects, is
/// blocked for good: it is neither valid nor worth another try.
pub proof fn fail_closed(r: PreflightResult, reason: Seq<char>)
    requires
        blocked_for(r, reason),
    ensures
        r.status is Blocked,
        !r.policy.sql_valid,
        !r.policy.caller_can_submit,
        !r.policy.would_auto_approve,
        !r.policy.break_glass_allowed,
        !r.retryable,
{
}

/// Whoever is told of a status other than requestable is told what to do next.
pub proof fn advice_is_given(status: PreflightStatus, findings: Seq<ReviewFinding>)
    ensures
        next_actions(status, findings).len() == 0 <==> status is Requestable,
{
}

/// In an answer about a reviewed statement approval is either required or not
/// needed, by what the workflow decides, and never both.
pub proof fn approval_is_required_or_not_needed(
    stage: PreflightDecision,
    replies: PreflightReplies,
    r: PreflightPlan,
)
    requires
        call_ensures(PreflightDecision::decided, (stage, replies), r),
    ensures
        r.result.policy.would_auto_approve <==> replies.outcome == Outcome::AutoApproved,
        r.result.policy.requires_approval <==> replies.outcome == Outcome::NeedsApproval,
        !(r.result.policy.would_auto_approve && r.result.policy.requires_approval),
{
}

/// The same of the policy itself: two decisions that differ give two policies
/// that differ.
pub proof fn policies_tell_the_decision(
    workflow: Workflow,
    outcome: Outcome,
    review_blocked: bool,
    has_break_glass: bool,
    can_submit: bool,
    p: PreflightPolicy,
)
    requires
        call_ensures(
            PreflightPolicy::from_workflow,
            (&workflow, outcome, review_blocked, has_break_glass, can_submit),
            p,
        ),
    ensures
        p.would_auto_approve <==> outcome == Outcome::AutoApproved,
        p.requires_approval <==> outcome == Outcome::NeedsApproval,
        p.sql_valid <==> !review_blocked,
        p.break_glass_allowed <==> has_break_glass,
        p.caller_can_submit <==> can_submit,
        p.require_reason <==> workflow.require_reason,
        p.workflow_id == Some(workflow.id),
{
}

proof fn lemma_all_approvers(steps: Seq<WorkflowStep>, i: int, j: int)
    requires
        0 <= i < steps.len(),
        0 <= j < steps[i].approvers@.len(),
    ensures
        exists|k: int|
            0 <= k < all_approvers(steps).len() && #[trigger] all_approvers(steps)[k]
                == steps[i].approvers@[j],
    decreases steps.len(),
{
    let rest = steps.drop_last();
    let before = all_approvers(rest);
    if i < rest.len() {
        assert(rest[i] == steps[i]);
        lemma_all_approvers(rest, i, j);
        let k = choose|k: int|
            0 <= k < before.len() && #[trigger] before[k] == steps[i].approvers@[j];
        assert(all_approvers(steps)[k] == before[k]);
    } else {
        assert(all_approvers(steps)[before.len() + j] == steps[i].approvers@[j]);
    }
}

/// Every group of every step of the workflow is shown, with the number of
/// approvals that it asks for.
pub proof fn every_approver_is_shown(
    workflow: Workflow,
    outcome: Outcome,
    review_blocked: bool,
    has_break_glass: bool,
    can_submit: bool,
    p: PreflightPolicy,
    i: int,
    j: int,
)
    requires
        call_ensures(
            PreflightPolicy::from_workflow,
            (&workflow, outcome, review_blocked, has_break_glass, can_submit),
            p,
        ),
        0 <= i < workflow.steps@.len(),
        0 <= j < workflow.steps@[i].approvers@.len(),
    ensures
        exists|k: int|
            0 <= k < p.approvers@.len() && (#[trigger] p.approvers@[k]).selector@
                == workflow.steps@[i].approvers@[j].selector.text() && p.approvers@[k].min
                == workflow.steps@[i].approvers@[j].min,
{
    let all = all_approvers(workflow.steps@);
    lemma_all_approvers(workflow.steps@, i, j);
    let k = choose|k: int|
        0 <= k < all.len() && #[trigger] all[k] == workflow.steps@[i].approvers@[j];
    assert(shows_approver(p.approvers@[k], all[k]));
}

/// A statement can be requested without a word exactly if the review neither
/// blocks nor warns, the caller may submit it, and it is not above the risk that
/// the workflow lets pass; a block or a missing permission blocks, anything else
/// warns.
pub proof fn status_tells_what_stands_in_the_way(
    review: ReviewOutcome,
    policy: PreflightPolicy,
    above_threshold: bool,
    workflow: Workflow,
    r: PreflightStatus,
)
    requires
        call_ensures(determine_status, (&review, &policy, above_threshold, &workflow), r),
    ensures
        r == PreflightStatus::Blocked <==> review.blocked || !policy.caller_can_submit,
        r == PreflightStatus::Requestable <==> {
            &&& !review.blocked
            &&& policy.caller_can_submit
            &&& !(above_threshold && workflow.auto_approve is Some
                && workflow.auto_approve->0.max_risk_level is Some)
            &&& forall|i: int|
                0 <= i < review.findings@.len() ==> (#[trigger] review.findings@[i]).action
                    != RuleAction::Warn
        },
{
}

/// The answer about a reviewed statement: its status, and whether trying again
/// makes sense, which it does unless the statement can be requested as it is.
pub proof fn answers_show_the_statement(
    stage: PreflightDecision,
    replies: PreflightReplies,
    r: PreflightPlan,
)
    requires
        call_ensures(PreflightDecision::decided, (stage, replies), r),
    ensures
        r.result.status == PreflightStatus::Blocked <==> stage.review.blocked
            || !replies.can_submit,
        r.result.retryable <==> r.result.status != PreflightStatus::Requestable,
        r.result.next_actions@.len() == 0 <==> r.result.status == PreflightStatus::Requestable,
        r.result.risk == stage.risk.level,
        r.result.risk_assessment.level == stage.risk.level,
        texts(r.result.risk_assessment.factors@) == texts(stage.risk.factors@),
        r.result.classification.mutating <==> !stage.class.read_only,
        r.result.classification.ddl <==> stage.class.is_ddl_only,
        r.result.classification.multi_statement <==> stage.class.statement_count >= 2,
        r.result.classification.statement_count == stage.class.statement_count,
        r.result.classification.operation@ == stage.class.operation.text(),
        r.result.review.blocked <==> stage.review.blocked,
        r.result.review.findings@.len() == stage.review.findings@.len(),
        r.result.policy.sql_valid <==> !stage.review.blocked,
        r.result.policy.caller_can_submit <==> replies.can_submit,
        r.result.policy.break_glass_allowed <==> replies.can_break_glass,
        r.result.fix_hints == replies.hints,
        r.result.impact.explain_plan is None,
        r.result.impact.status == ImpactStatus::DisabledByPolicy <==> stage.case.with_explain
            && !stage.workflow.explain,
        r.case == stage.case,
        r.explains == stage.workflow.explain,
{
    assert(texts(r.result.next_actions@).len() == r.result.next_actions@.len());
    advice_is_given(r.result.status, stage.review.findings@);
}

/// Every finding is shown in its place, with its message and what it asks for.
pub proof fn findings_are_shown(
    stage: PreflightDecision,
    replies: PreflightReplies,
    r: PreflightPlan,
    k: int,
)
    requires
        call_ensures(PreflightDecision::decided, (stage, replies), r),
        0 <= k < stage.review.findings@.len(),
    ensures
        r.result.review.findings@[k].message == stage.review.findings@[k].message,
        r.result.review.findings@[k].statement_index
            == stage.review.findings@[k].statement_index,
        stage.review.findings@[k].action == RuleAction::Block
            ==> r.result.review.findings@[k].action@ == "block"@,
        stage.review.findings@[k].action == RuleAction::Warn
            ==> r.result.review.findings@[k].action@ == "warn"@,
        stage.review.findings@[k].action == RuleAction::Off
            ==> r.result.review.findings@[k].action@ == "off"@,
{
    assert(shows_finding(r.result.review.findings@[k], stage.review.findings@[k]));
}

/// A blocked statement is advised on by what was found: to narrow an update or
/// deletion without condition, to split a large list.
pub proof fn advice_follows_the_findings(findings: Vec<ReviewFinding>, r: Vec<String>)
    requires
        call_ensures(build_next_actions, (PreflightStatus::Blocked, &findings), r),
    ensures
        (exists|i: int|
            0 <= i < findings@.len() && ((#[trigger] findings@[i]).rule@ == "NoWhereUpdate"@
                || findings@[i].rule@ == "NoWhereDelete"@)) ==> texts(r@).contains(
            "Run preflight again with a narrower WHERE clause"@,
        ),
        (exists|i: int|
            0 <= i < findings@.len() && (#[trigger] findings@[i]).rule@ == "LargeInList"@)
            ==> texts(r@).contains("Consider batching into smaller transactions"@),
        r@.len() > 0,
{
    let a = texts(r@);
    assert(a.len() == r@.len());
    let narrow = found(findings@, "NoWhereUpdate"@) || found(findings@, "NoWhereDelete"@);
    let batch = found(findings@, "LargeInList"@);
    if narrow {
        assert(a[0] == "Run preflight again with a narrower WHERE clause"@);
    }
    if batch {
        assert(a[a.len() - 1] == "Consider batching into smaller transactions"@);
    }
}

/// Submitting a statement that only reads needs the permission to query, and any
/// other the permission to execute.
pub proof fn reading_needs_less(stage: PreflightDecision, asked: Permission)
    requires
        call_ensures(PreflightDecision::submit_permission, (&stage,), asked),
    ensures
        asked == Permission::RequestQuery <==> stage.class.read_only,
        asked == Permission::RequestExecute <==> !stage.class.read_only,
{
}

/// A statement within the limit is looked at; the caller has to be authorized,
/// and a plan is made only if it is both wanted and allowed.
pub proof fn preflight_is_authorized(
    uc: PreflightUseCase,
    user: AuthUser,
    input: PreflightInput,
    start: Result<PreflightStart, AppError>,
    reply: Result<(), AuthzError>,
    explain_allowed: bool,
    r: Result<PreflightRegistry, AppError>,
)
    requires
        call_ensures(PreflightUseCase::execute, (&uc, &user, input), start),
        start is Ok ==> call_ensures(
            PreflightStart::authorized,
            (start->Ok_0, reply, explain_allowed),
            r,
        ),
    ensures
        start is Ok <==> utf8_len(input.sql@) <= uc.max_sql_length,
        start is Ok ==> (r is Ok <==> reply is Ok),
        start is Ok && r is Ok ==> {
            &&& r->Ok_0.case.input == input
            &&& r->Ok_0.case.user_id == user.subject_id
            &&& r->Ok_0.case.with_explain <==> input.include_explain && explain_allowed
        },
{
}

/// Only a registered database is looked at, in its own dialect.
pub proof fn preflight_needs_a_registered_database(
    stage: PreflightRegistry,
    known: bool,
    r: Result<PreflightDialect, AppError>,
    named: PreflightDialect,
    name: Option<String>,
    c: PreflightClassify,
)
    requires
        call_ensures(PreflightRegistry::registered, (stage, known), r),
        call_ensures(PreflightDialect::dialect, (named, name), c),
    ensures
        r is Ok <==> known,
        r is Ok ==> r->Ok_0.case == stage.case,
        c.dialect == Dialect::MySql <==> (name is Some && name->0@ == "mysql"@),
        c.dialect == Dialect::PostgreSql <==> !(name is Some && name->0@ == "mysql"@),
        c.case == named.case,
{
}

/// A statement that the classifier rejects is answered as blocked; one that it
/// accepts goes on as what it says, unless the caller names another operation.
pub proof fn classified_statements_are_looked_at(
    stage: PreflightClassify,
    reply: Result<StatementClass, ClassifyError>,
    r: Result<PreflightStep<PreflightWorkflow>, AppError>,
)
    requires
        call_ensures(PreflightClassify::classified, (stage, reply), r),
    ensures
        reply matches Ok(class) ==> {
            let agrees = stage.case.input.operation_override matches Some(o) ==> o@
                == class.operation.text();
            &&& r is Ok <==> agrees
            &&& r is Ok ==> r->Ok_0 is Next && r->Ok_0->Next_0.class == class
                && r->Ok_0->Next_0.case == stage.case && r->Ok_0->Next_0.dialect == stage.dialect
        },
        reply matches Err(ClassifyError::Rejected { reason }) ==> r is Ok && r->Ok_0 is Answer
            && r->Ok_0->Answer_0.status == PreflightStatus::Blocked
            && !r->Ok_0->Answer_0.policy.caller_can_submit
            && r->Ok_0->Answer_0.review.findings@.len() == 1
            && r->Ok_0->Answer_0.review.findings@[0].message@ == reason@,
        reply matches Err(ClassifyError::Empty) ==> r is Err && r->Err_0 is Validation,
{
}

/// Without a workflow the answer is that the statement is blocked.
pub proof fn no_workflow_blocks(
    stage: PreflightWorkflow,
    workflow: Option<Workflow>,
    r: PreflightStep<PreflightReviewing>,
)
    requires
        call_ensures(PreflightWorkflow::workflow, (stage, workflow), r),
    ensures
        r is Answer <==> workflow is None,
        r matches PreflightStep::Answer(a) ==> a.status == PreflightStatus::Blocked
            && !a.policy.would_auto_approve && !a.policy.caller_can_submit
            && !a.policy.break_glass_allowed,
        r matches PreflightStep::Next(s) ==> Some(s.workflow) == workflow && s.class == stage.class
            && s.case == stage.case && s.dialect == stage.dialect,
{
}

proof fn lemma_most_rows(tables: Seq<TableRiskInfo>)
    requires
        tables.len() > 0,
    ensures
        forall|i: int|
            0 <= i < tables.len() ==> (#[trigger] tables[i]).estimated_rows <= most_rows(tables),
        exists|i: int|
            0 <= i < tables.len() && (#[trigger] tables[i]).estimated_rows == most_rows(tables),
    decreases tables.len(),
{
    if tables.len() > 1 {
        let rest = tables.drop_last();
        lemma_most_rows(rest);
        let j = choose|j: int|
            0 <= j < rest.len() && (#[trigger] rest[j]).estimated_rows == most_rows(rest);
        assert(tables[j] == rest[j]);
        assert(tables[tables.len() - 1] == tables.last());
        assert forall|i: int| 0 <= i < tables.len() implies (#[trigger] tables[i]).estimated_rows
            <= most_rows(tables) by {
            if i < rest.len() {
                assert(rest[i] == tables[i]);
            }
        }
    } else {
        assert(tables[0].estimated_rows == most_rows(tables));
    }
}

/// The risk is evaluated from the named tables as far as they are known, with
/// the rows of the largest; named tables of which none is known count as not
/// synchronized, and a statement that only reads is told from one that does not.
pub proof fn risk_knows_the_largest_table(
    stage: PreflightTables,
    infos: Vec<TableRiskInfo>,
    r: PreflightRisk,
)
    requires
        call_ensures(PreflightTables::resolved, (stage, infos), r),
    ensures
        r.risk_input.operation == stage.class.operation,
        r.risk_input.statement_count == stage.class.statement_count,
        r.risk_input.has_dml <==> !stage.class.read_only,
        r.risk_input.allow_read_only <==> stage.class.read_only,
        stage.tables@.len() == 0 ==> r.risk_input.tables@.len() == 0,
        stage.tables@.len() > 0 ==> r.risk_input.tables@ == infos@,
        r.risk_input.schema_status == SchemaStatus::NotSynced <==> stage.tables@.len() > 0
            && infos@.len() == 0,
        forall|i: int|
            0 <= i < r.risk_input.tables@.len() ==> (
            #[trigger] r.risk_input.tables@[i]).estimated_rows <= r.risk_input.max_estimated_rows,
        r.risk_input.tables@.len() > 0 ==> exists|i: int|
            0 <= i < r.risk_input.tables@.len() && (
            #[trigger] r.risk_input.tables@[i]).estimated_rows
                == r.risk_input.max_estimated_rows,
        r.review == stage.review,
        r.workflow == stage.workflow,
{
    if r.risk_input.tables@.len() > 0 {
        lemma_most_rows(r.risk_input.tables@);
    }
}

/// A plan is asked of an agent exactly if one is wanted, the workflow has plans
/// made, and there is an agent for it; the rest of the answer stays as it is.
pub proof fn plans_are_asked_for_where_possible(
    stage: PreflightPlan,
    asked: bool,
    eligible: bool,
    r: PreflightEnd,
)
    requires
        call_ensures(PreflightPlan::needs_agents, (&stage,), asked),
        call_ensures(PreflightPlan::agents, (stage, eligible), r),
    ensures
        asked <==> stage.case.with_explain && stage.explains,
        r is Explain <==> asked && eligible,
        r matches PreflightEnd::Explain(s) ==> s.result == stage.result && s.case == stage.case,
        r matches PreflightEnd::Done(a) ==> {
            &&& a.status == stage.result.status
            &&& a.policy == stage.result.policy
            &&& a.review == stage.result.review
            &&& asked ==> a.impact.status == ImpactStatus::NotAvailable
            &&& !asked ==> a == stage.result
        },
{
}

/// There is an agent for a plan exactly if some agent is not draining, is
/// healthy, and is registered for the database in the environment.
pub proof fn eligible_agents_serve_the_database(
    agents: Vec<Agent>,
    healthy: Vec<bool>,
    database: &str,
    environment: &str,
    r: bool,
)
    requires
        healthy@.len() == agents@.len(),
        call_ensures(has_eligible_agent, (&agents, &healthy, database, environment), r),
    ensures
        r <==> exists|i: int, c: int|
            0 <= i < agents@.len() && agents@[i].status != AgentStatus::Draining && healthy@[i]
                && 0 <= c < agents@[i].databases@.len() && (
            #[trigger] agents@[i].databases@[c]).database@ == database@
                && agents@[i].databases@[c].environment@ == environment@,
{
    if r {
        let i = choose|i: int|
            0 <= i < agents@.len() && eligible_agent(
                #[trigger] agents@[i],
                healthy@[i],
                database@,
                environment@,
            );
        let caps = agents@[i].databases@;
        let c = choose|c: int|
            0 <= c < caps.len() && (#[trigger] caps[c]).database@ == database@
                && caps[c].environment@ == environment@;
        assert(agents@[i].databases@[c].database@ == database@);
    } else {
        assert forall|i: int, c: int|
            0 <= i < agents@.len() && agents@[i].status != AgentStatus::Draining && healthy@[i]
                && 0 <= c < agents@[i].databases@.len() implies !((
        #[trigger] agents@[i].databases@[c]).database@ == database@
            && agents@[i].databases@[c].environment@ == environment@) by {
            assert(!eligible_agent(agents@[i], healthy@[i], database@, environment@));
        }
    }
}

/// The plan is asked for the statement as it was submitted, for the caller.
pub proof fn plans_are_made_of_the_statement(
    stage: PreflightJobDue,
    job_id: String,
    r: (PreflightResult, PreflightExplainRequest),
)
    requires
        call_ensures(PreflightJobDue::identified, (stage, job_id), r),
    ensures
        r.0 == stage.result,
        r.1.job_id == job_id,
        r.1.sql == stage.case.input.sql,
        r.1.database == stage.case.input.database,
        r.1.environment == stage.case.input.environment,
        r.1.timeout_ms == stage.case.input.explain_timeout_ms,
        r.1.user_id == stage.case.user_id,
{
}

/// A statement that is blocked before its review passes nothing, and says why.
pub proof fn rejected_statements_are_blocked(reason: &str, r: PreflightResult)
    requires
        call_ensures(blocked_result, (reason,), r),
    ensures
        r.status == PreflightStatus::Blocked,
        r.review.blocked,
        r.risk == RiskLevel::Unknown,
        !r.policy.sql_valid,
        !r.policy.caller_can_submit,
        !r.policy.would_auto_approve,
        !r.policy.requires_approval,
        !r.policy.break_glass_allowed,
        r.policy.workflow_id is None,
        !r.retryable,
        r.review.findings@.len() == 1,
        r.review.findings@[0].code@ == "rejected"@,
        r.review.findings@[0].action@ == "block"@,
        r.review.findings@[0].message@ == reason@,
        texts(r.fix_hints@) == seq![reason@],
        r.classification.statement_count == 0,
        !r.classification.mutating,
{
}

/// What the review found and the risk is go on as they are; the schema is looked
/// at only where tables are named.
pub proof fn findings_and_risk_go_on(
    stage: PreflightReviewing,
    review: ReviewOutcome,
    tables: Vec<TableRef>,
    r: PreflightTables,
    needed: bool,
    at_risk: PreflightRisk,
    risk: RiskAssessment,
    d: PreflightDecision,
)
    requires
        call_ensures(PreflightReviewing::reviewed, (stage, review, tables), r),
        call_ensures(PreflightTables::needs_tables, (&r,), needed),
        call_ensures(PreflightRisk::assessed, (at_risk, risk), d),
    ensures
        r.case == stage.case && r.class == stage.class && r.workflow == stage.workflow,
        r.review == review,
        r.tables == tables,
        needed <==> tables@.len() > 0,
        d.case == at_risk.case && d.class == at_risk.class && d.workflow == at_risk.workflow,
        d.review == at_risk.review,
        d.risk == risk,
{
}

/// A statement is not taken for a harmless schema change before it is submitted,
/// and a schema without tables to look up counts as ready.
pub proof fn nothing_is_taken_for_harmless(
    stage: PreflightTables,
    infos: Vec<TableRiskInfo>,
    r: PreflightRisk,
)
    requires
        call_ensures(PreflightTables::resolved, (stage, infos), r),
    ensures
        !r.risk_input.safe_ddl,
        stage.tables@.len() == 0 ==> r.risk_input.schema_status == SchemaStatus::Ready
            && r.risk_input.max_estimated_rows == 0,
        stage.tables@.len() > 0 && infos@.len() > 0 ==> r.risk_input.schema_status
            == SchemaStatus::Ready,
        r.case == stage.case,
        r.class == stage.class,
{
}

/// A statement is shown by the type of its operation.
pub proof fn statements_are_shown_by_their_type(
    stage: PreflightDecision,
    replies: PreflightReplies,
    r: PreflightPlan,
)
    requires
        call_ensures(PreflightDecision::decided, (stage, replies), r),
    ensures
        ({
            let shown = r.result.classification.statement_type@;
            let op = stage.class.operation;
            &&& op == Operation::ExecuteSelect ==> shown == "ExecuteSelect"@
            &&& op == Operation::ExecuteDml ==> shown == "ExecuteDml"@
            &&& op == Operation::MigrateUp ==> shown == "MigrateUp"@
            &&& op == Operation::MigrateDown ==> shown == "MigrateDown"@
            &&& op == Operation::MigrateStatus ==> shown == "MigrateStatus"@
            &&& op == Operation::MigrateRepair ==> shown == "MigrateRepair"@
        }),
        r.result.status == PreflightStatus::Warning ==> texts(r.result.next_actions@) == seq![
            "Review warnings before submitting the request"@,
        ],
{
}

} // verus!
