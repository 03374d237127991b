//! Why a request was let through or held back, as it is kept with the request.

use vstd::prelude::*;

use crate::domain::Operation;

verus! {

/// Snapshot of the decision taken when a request is created.
pub struct DecisionTrace {
    pub version: u16,
    pub classification: Classification,
    pub sql_review: SqlReview,
    pub risk: Risk,
    pub workflow: WorkflowMatch,
    pub decision: Decision,
}

/// What the statement was taken for.
pub struct Classification {
    pub resolved_operation: OperationKind,
}

/// The operation of a request in a decision trace.
#[derive(Clone, Copy, Debug, PartialEq, Eq, Structural)]
pub enum OperationKind {
    ExecuteSelect,
    ExecuteDml,
    MigrateUp,
    MigrateDown,
    MigrateStatus,
    MigrateRepair,
}

impl OperationKind {
    /// The kind of an operation.
    pub open spec fn of(op: Operation) -> OperationKind {
        match op {
            Operation::ExecuteSelect => OperationKind::ExecuteSelect,
            Operation::ExecuteDml => OperationKind::ExecuteDml,
            Operation::MigrateUp => OperationKind::MigrateUp,
            Operation::MigrateDown => OperationKind::MigrateDown,
            Operation::MigrateStatus => OperationKind::MigrateStatus,
            Operation::MigrateRepair => OperationKind::MigrateRepair,
        }
    }
}

impl From<Operation> for OperationKind {
    fn from(op: Operation) -> (r: OperationKind) {
        match op {
            Operation::ExecuteSelect => OperationKind::ExecuteSelect,
            Operation::ExecuteDml => OperationKind::ExecuteDml,
            Operation::MigrateUp => OperationKind::MigrateUp,
            Operation::MigrateDown => OperationKind::MigrateDown,
            Operation::MigrateStatus => OperationKind::MigrateStatus,
            Operation::MigrateRepair => OperationKind::MigrateRepair,
        }
    }
}

impl vstd::std_specs::convert::FromSpecImpl<Operation> for OperationKind {
    open spec fn obeys_from_spec() -> bool {
        true
    }

    open spec fn from_spec(op: Operation) -> OperationKind {
        OperationKind::of(op)
    }
}

/// What the review of the statement found.
pub struct SqlReview {
    pub findings_count: usize,
    pub parse_failed: bool,
}

/// How risky the statement is.
pub struct Risk {
    pub level: RiskLevel,
    pub factors: Vec<String>,
    pub schema_status: SchemaStatus,
}

/// A level of risk.
#[derive(Clone, Copy, Debug, PartialEq, Eq, Structural)]
pub enum RiskLevel {
    Low,
    Medium,
    High,
    Critical,
    Unknown,
    Unavailable,
}

impl RiskLevel {
    /// The name of the level.
    pub open spec fn text(self) -> Seq<char> {
        match self {
            RiskLevel::Low => "Low"@,
            RiskLevel::Medium => "Medium"@,
            RiskLevel::High => "High"@,
            RiskLevel::Critical => "Critical"@,
            RiskLevel::Unknown => "Unknown"@,
            RiskLevel::Unavailable => "Unavailable"@,
        }
    }

    /// The name of the level.
    pub fn as_str(&self) -> (r: &'static str)
        ensures
            r@ == self.text(),
    {
        match self {
            RiskLevel::Low => "Low",
            RiskLevel::Medium => "Medium",
            RiskLevel::High => "High",
            RiskLevel::Critical => "Critical",
            RiskLevel::Unknown => "Unknown",
            RiskLevel::Unavailable => "Unavailable",
        }
    }
}

/// Whether the schema of the database is known.
#[derive(Clone, Copy, Debug, PartialEq, Eq, Structural)]
pub enum SchemaStatus {
    Ready,
    NotSynced,
    Failed,
    Unavailable,
}

/// The workflow that applies.
pub struct WorkflowMatch {
    pub matched: Option<WorkflowRef>,
}

/// A reference to a workflow.
pub struct WorkflowRef {
    pub id: String,
    pub database: String,
    pub environment: String,
    pub step_count: usize,
}

/// The decision and what led to it.
pub struct Decision {
    pub outcome: Outcome,
    pub reasons: Vec<DecisionReason>,
    pub auto_approve_threshold: Option<RiskLevel>,
}

/// Whether a request needs approval.
#[derive(Clone, Copy, Debug, PartialEq, Eq, Structural)]
pub enum Outcome {
    AutoApproved,
    NeedsApproval,
}

/// What led to a decision.
#[derive(Clone, Copy, Debug, PartialEq, Eq, Structural)]
pub enum DecisionReason {
    EmptySteps,
    RiskBelowThreshold,
    BreakGlass,
    AutoApproveDisabled,
    RiskAboveThreshold,
    NoAutoApproveRule,
    RiskUnavailable,
}

/// A level of risk goes by its name, and an operation keeps its kind.
pub proof fn levels_go_by_their_names(level: RiskLevel, r: &'static str)
    requires
        call_ensures(RiskLevel::as_str, (&level,), r),
    ensures
        level == RiskLevel::Low ==> r@ == "Low"@,
        level == RiskLevel::Medium ==> r@ == "Medium"@,
        level == RiskLevel::High ==> r@ == "High"@,
        level == RiskLevel::Critical ==> r@ == "Critical"@,
        level == RiskLevel::Unknown ==> r@ == "Unknown"@,
        level == RiskLevel::Unavailable ==> r@ == "Unavailable"@,
{
}

/// An operation is traced as what it is.
pub proof fn operations_keep_their_kind(op: Operation)
    ensures
        op == Operation::ExecuteSelect <==> OperationKind::of(op) == OperationKind::ExecuteSelect,
        op == Operation::ExecuteDml <==> OperationKind::of(op) == OperationKind::ExecuteDml,
        op == Operation::MigrateUp <==> OperationKind::of(op) == OperationKind::MigrateUp,
        op == Operation::MigrateDown <==> OperationKind::of(op) == OperationKind::MigrateDown,
        op == Operation::MigrateStatus <==> OperationKind::of(op) == OperationKind::MigrateStatus,
        op == Operation::MigrateRepair <==> OperationKind::of(op) == OperationKind::MigrateRepair,
{
}

} // verus!
