//! Creating a request: admission, classification, review, risk, workflow,
//! persistence and follow-up.
//!
//! Each stage is a value that says which call is due; the method that takes
//! the reply gives the next stage or the error that the caller gets.

use vstd::prelude::*;

use crate::digest::{hex_text, sha256, sha256_text};
use crate::domain::{
    AuditEvent, AuthUser, EventMetadata, Operation, Permission, Request, RequestStatus, SubjectType,
    TransitionContext, TransitionEvent, TransitionReply, Workflow, group_texts, selector_texts,
};
use crate::error::{AppError, AuthzError, ErrorView};
use crate::json::{
    parsed_json, rendered_json, text_trees, trees, uint_number, Json, JsonObject, JsonTree,
};
use crate::ports::{DryRunJobRecord, RequestContextRecord, SchemaSnapshotRecord, WebhookEvent};
use crate::services::audit_event_builder::{
    build_webhook_event, notifies, plain_audit_event, plainly_records,
};
use crate::services::tables_display::{
    names_json, plain_names_are_shown_joined, shows_tables, table_names, tables_in, TableEntry,
};
use crate::text::{
    byte_len, concat2, concat3, concat4, concat5, contains_seq, contains_text, copy_texts, join,
    join_texts, same_text, texts, utf8_len,
};
use crate::time::{rfc3339, rfc3339_text, Timestamp};
use crate::use_cases::decision_trace::{
    Classification as TraceClassification, Decision, DecisionReason, DecisionTrace, OperationKind,
    Outcome, Risk, RiskLevel, SchemaStatus, SqlReview, WorkflowMatch, WorkflowRef,
};
use crate::use_cases::get_schema::{collect_environments, environments_of};
use crate::use_cases::risk_analysis::{
    documents, parse_table_risk_info, resolve_schema_status, risk_infos_of, schema_status_of,
    TableRef, TableRiskInfo,
};
use vstd::utf8::encode_utf8;

verus! {

/// Why an emergency schema change is refused.
pub enum BreakGlassDenial {
    RequiresEmergency,
    RestrictedChannel,
    MissingAllowDdl { original_reason: String },
    NonBypassableStatement { reason: String },
    NonBypassableReviewRule { reasons: Vec<String> },
}

impl BreakGlassDenial {
    /// What the caller is told.
    pub open spec fn text(self) -> Seq<char> {
        match self {
            BreakGlassDenial::RequiresEmergency => "--allow-ddl requires --emergency"@,
            BreakGlassDenial::RestrictedChannel => "--allow-ddl is not allowed via MCP/Slack"@,
            BreakGlassDenial::MissingAllowDdl { original_reason } => original_reason@
                + ". Hint: add --allow-ddl to bypass in emergency mode"@,
            BreakGlassDenial::NonBypassableStatement { reason } => reason@,
            BreakGlassDenial::NonBypassableReviewRule { reasons } =>
            "SQL blocked by review (not bypassable): "@ + join(texts(reasons@), "; "@),
        }
    }

    /// The error that the caller gets.
    pub fn into_app_error(self) -> (r: AppError)
        ensures
            r@ == ErrorView::Validation(self.text()),
    {
        match self {
            BreakGlassDenial::RequiresEmergency => AppError::Validation(
                "--allow-ddl requires --emergency".to_string(),
            ),
            BreakGlassDenial::RestrictedChannel => AppError::Validation(
                "--allow-ddl is not allowed via MCP/Slack".to_string(),
            ),
            BreakGlassDenial::MissingAllowDdl { original_reason } => AppError::Validation(
                concat2(
                    original_reason.as_str(),
                    ". Hint: add --allow-ddl to bypass in emergency mode",
                ),
            ),
            BreakGlassDenial::NonBypassableStatement { reason } => AppError::Validation(reason),
            BreakGlassDenial::NonBypassableReviewRule { reasons } => AppError::Validation(
                concat2(
                    "SQL blocked by review (not bypassable): ",
                    join_texts(&reasons, "; ").as_str(),
                ),
            ),
        }
    }
}

/// Largest accepted statement, in bytes.
pub const MAX_QUERY_BYTES: usize = 100_000;

/// Largest accepted reason, in bytes.
pub const MAX_REASON_BYTES: usize = 1024;

/// The channel through which a request was submitted.
#[derive(Clone, Copy, Debug, PartialEq, Eq, Structural)]
pub enum RequestChannel {
    Cli,
    Api,
    Mcp,
    Slack,
}

impl RequestChannel {
    /// Whether the channel is closed to emergencies and schema changes.
    pub open spec fn restricted(self) -> bool {
        self is Mcp || self is Slack
    }

    /// Whether the channel is closed to emergencies and schema changes.
    pub fn is_restricted(&self) -> (r: bool)
        ensures
            r == self.restricted(),
    {
        match self {
            RequestChannel::Mcp => true,
            RequestChannel::Slack => true,
            _ => false,
        }
    }
}

/// What a caller submits.
pub struct CreateRequestInput {
    pub database: String,
    pub environment: String,
    pub operation: Operation,
    pub detail: String,
    pub reason: Option<String>,
    pub emergency: bool,
    pub allow_ddl: bool,
    pub idempotency_key: Option<String>,
    pub share_with: Vec<String>,
    pub no_result_store: bool,
    pub metadata_json: String,
    pub channel: RequestChannel,
}

/// What the caller gets back.
pub struct CreateRequestOutput {
    pub id: String,
    pub status: RequestStatus,
    pub operation: Operation,
    pub is_existing: bool,
    pub expires_at: Option<Timestamp>,
    pub approvers: Vec<String>,
}

/// The rule on passing without approval that applies to a database and
/// environment.
#[derive(Clone, Copy, Debug, PartialEq, Eq, Structural)]
pub struct AutoApproveEntry {
    pub allow_read_only: bool,
    pub allow_safe_ddl: bool,
    pub max_estimated_rows: u64,
    pub max_risk_level: Option<RiskLevel>,
}

/// The use case with its settings.
pub struct CreateRequest {
    pub default_approval_ttl_secs: Option<u64>,
}

/// A submission on its way: what was submitted, by whom, and the settings that
/// apply to it.
pub struct Submission {
    pub input: CreateRequestInput,
    pub caller_id: String,
    pub caller_type: SubjectType,
    pub auto_entry: Option<AutoApproveEntry>,
    pub default_ttl_secs: Option<u64>,
}

/// Why a submission is not admitted at all.
pub open spec fn admission_error(input: CreateRequestInput) -> Option<ErrorView> {
    if utf8_len(input.detail@) > MAX_QUERY_BYTES {
        Some(ErrorView::Validation("query too long (max 100KB)"@))
    } else if input.reason is Some && utf8_len(input.reason->0@) > MAX_REASON_BYTES {
        Some(ErrorView::Validation("reason too long (max 1KB)"@))
    } else if input.allow_ddl && !input.emergency {
        Some(ErrorView::Validation("--allow-ddl requires --emergency"@))
    } else if input.allow_ddl && input.channel.restricted() {
        Some(ErrorView::Validation("--allow-ddl is not allowed via MCP/Slack"@))
    } else {
        None
    }
}

impl CreateRequest {
    /// Admits a submission. Due next: count an attempted schema change where
    /// the stage says so, then look up the dialect of the database and
    /// environment.
    pub fn execute(
        &self,
        input: CreateRequestInput,
        user: &AuthUser,
        auto_entry: Option<AutoApproveEntry>,
    ) -> (r: Result<CreateStart, AppError>)
        ensures
            match r {
                Err(e) => admission_error(input) == Some(e@),
                Ok(s) => {
                    &&& admission_error(input) is None
                    &&& s.submission.input == input
                    &&& s.submission.caller_id == user.subject_id
                    &&& s.submission.caller_type == user.subject_type
                    &&& s.submission.auto_entry == auto_entry
                    &&& s.submission.default_ttl_secs == self.default_approval_ttl_secs
                    &&& s.ddl_attempted == (input.emergency && input.allow_ddl)
                },
            },
    {
        if byte_len(input.detail.as_str()) > MAX_QUERY_BYTES {
            return Err(AppError::Validation("query too long (max 100KB)".to_string()));
        }
        match &input.reason {
            Some(reason) => {
                if byte_len(reason.as_str()) > MAX_REASON_BYTES {
                    return Err(AppError::Validation("reason too long (max 1KB)".to_string()));
                }
            },
            None => {},
        }
        if input.allow_ddl && !input.emergency {
            return Err(BreakGlassDenial::RequiresEmergency.into_app_error());
        }
        if input.allow_ddl && input.channel.is_restricted() {
            return Err(BreakGlassDenial::RestrictedChannel.into_app_error());
        }
        let ddl_attempted: bool = input.emergency && input.allow_ddl;
        Ok(
            CreateStart {
                submission: Submission {
                    input,
                    caller_id: user.subject_id.clone(),
                    caller_type: user.subject_type,
                    auto_entry,
                    default_ttl_secs: self.default_approval_ttl_secs,
                },
                ddl_attempted,
            },
        )
    }
}

/// An admitted submission.
pub struct CreateStart {
    pub submission: Submission,
    pub ddl_attempted: bool,
}

/// The SQL dialect of a database.
#[derive(Clone, Copy, Debug, PartialEq, Eq, Structural)]
pub enum Dialect {
    PostgreSql,
    MySql,
}

/// The dialect that a schema record names; PostgreSQL where it names none.
pub open spec fn dialect_named(name: Option<String>) -> Dialect {
    if name is Some && name->0@ == "mysql"@ {
        Dialect::MySql
    } else {
        Dialect::PostgreSql
    }
}

/// Where the operation comes from.
pub enum OperationStep {
    /// The caller names it; the statement is reviewed next.
    Explicit(Reviewing),
    /// The statement is classified next.
    Classify(Classifying),
}

impl CreateStart {
    /// Takes the dialect of the database. Migrations keep the operation that
    /// the caller names.
    pub fn dialect(self, name: Option<String>) -> (r: OperationStep)
        ensures
            match r {
                OperationStep::Explicit(s) => {
                    &&& self.submission.input.operation.migration()
                    &&& s.submission == self.submission
                    &&& s.dialect == dialect_named(name)
                    &&& s.resolved.operation == self.submission.input.operation
                    &&& s.resolved.classification is None
                    &&& s.resolved.statements is None
                    &&& !s.resolved.classifier_bypassed
                },
                OperationStep::Classify(s) => {
                    &&& !self.submission.input.operation.migration()
                    &&& s.submission == self.submission
                    &&& s.dialect == dialect_named(name)
                },
            },
    {
        let dialect = if crate::text::is_text(&name, "mysql") {
            Dialect::MySql
        } else {
            Dialect::PostgreSql
        };
        if self.submission.input.operation.is_migration() {
            let operation = self.submission.input.operation;
            OperationStep::Explicit(
                Reviewing {
                    submission: self.submission,
                    dialect,
                    resolved: Resolved {
                        operation,
                        classification: None,
                        statements: None,
                        classifier_bypassed: false,
                    },
                },
            )
        } else {
            OperationStep::Classify(Classifying { submission: self.submission, dialect })
        }
    }
}

/// Why a statement counts as a change.
#[derive(Clone, Copy, Debug, PartialEq, Eq, Structural)]
pub enum DmlReason {
    Ddl,
    ParseFailure,
    Other,
}

/// What the classifier takes a statement for.
pub struct Classification {
    pub operation: Operation,
    pub dml_reason: Option<DmlReason>,
    pub statement_count: usize,
    pub statements: Vec<String>,
    pub is_ddl_only: bool,
}

/// Why the classifier refuses a text.
pub enum ClassifyError {
    Empty,
    Rejected { reason: String },
}

/// One statement as the SQL analysis sees it.
pub struct ParsedStatement {
    pub text: String,
    pub break_glass_eligible: bool,
    pub safe_ddl: bool,
}

/// The reply of the classifier.
pub struct Classified {
    pub outcome: Result<Classification, ClassifyError>,
    pub statements: Option<Vec<ParsedStatement>>,
}

/// The operation of a submission and where it comes from.
pub struct Resolved {
    pub operation: Operation,
    pub classification: Option<Classification>,
    pub statements: Option<Vec<ParsedStatement>>,
    pub classifier_bypassed: bool,
}

/// Due: classify the statement in the dialect.
pub struct Classifying {
    pub submission: Submission,
    pub dialect: Dialect,
}

/// Due: parse and review the statement in the dialect.
pub struct Reviewing {
    pub submission: Submission,
    pub dialect: Dialect,
    pub resolved: Resolved,
}

/// A refusal, with what is recorded on the way out: a denied schema change in
/// the metrics, and an audit record.
pub struct Refusal {
    pub error: AppError,
    pub ddl_denied: bool,
    pub audit: Option<AuditEvent>,
}

/// Whether there are statements and each may be run under break-glass.
pub open spec fn all_eligible(statements: Option<Vec<ParsedStatement>>) -> bool {
    match statements {
        Some(v) => v@.len() > 0 && forall|i: int|
            0 <= i < v@.len() ==> (#[trigger] v@[i]).break_glass_eligible,
        None => false,
    }
}

/// Whether there are statements and each may be run under break-glass.
pub fn every_eligible(statements: &Option<Vec<ParsedStatement>>) -> (r: bool)
    ensures
        r == all_eligible(*statements),
{
    match statements {
        Some(v) => {
            let n: usize = v.len();
            let mut i: usize = 0;
            while i < n
                invariant
                    i <= n,
                    n == v@.len(),
                    *statements == Some(*v),
                    forall|k: int| 0 <= k < i ==> (#[trigger] v@[k]).break_glass_eligible,
                decreases n - i,
            {
                if !v[i].break_glass_eligible {
                    return false;
                }
                i += 1;
            }
            n > 0
        },
        None => false,
    }
}

/// The texts of the statements, in order.
pub open spec fn statement_texts(v: Seq<ParsedStatement>) -> Seq<Seq<char>> {
    v.map_values(|s: ParsedStatement| s.text@)
}

/// The texts of the statements, in order.
pub fn collect_statement_texts(v: &Vec<ParsedStatement>) -> (r: Vec<String>)
    ensures
        texts(r@) == statement_texts(v@),
{
    let mut out: Vec<String> = Vec::new();
    let n: usize = v.len();
    let mut i: usize = 0;
    while i < n
        invariant
            i <= n,
            n == v@.len(),
            out@.len() == i,
            forall|k: int| 0 <= k < i ==> (#[trigger] out@[k])@ == v@[k].text@,
        decreases n - i,
    {
        out.push(v[i].text.clone());
        i += 1;
    }
    assert(texts(out@) =~= statement_texts(v@));
    out
}

/// Whether the caller asks for a schema change in an emergency.
pub open spec fn wants_bypass(input: CreateRequestInput) -> bool {
    input.emergency && input.allow_ddl
}

/// Why a classified submission is refused, and whether the refusal counts as a
/// denied schema change.
pub open spec fn classify_refusal(input: CreateRequestInput, reply: Classified) -> Option<
    (ErrorView, bool),
> {
    match reply.outcome {
        Ok(_) => None,
        Err(ClassifyError::Empty) => Some((ErrorView::Validation("empty query"@), false)),
        Err(ClassifyError::Rejected { reason }) => if wants_bypass(input) {
            if all_eligible(reply.statements) {
                None
            } else {
                Some((ErrorView::Validation(reason@), true))
            }
        } else if input.emergency {
            Some(
                (
                    ErrorView::Validation(
                        reason@ + ". Hint: add --allow-ddl to bypass in emergency mode"@,
                    ),
                    false,
                ),
            )
        } else {
            Some((ErrorView::Validation(reason@), false))
        },
    }
}

/// Whether `r` is the operation that the classifier's reply stands for: what it
/// says, or a schema change let through in an emergency.
pub open spec fn resolved_from(r: Resolved, reply: Classified) -> bool {
    &&& r.statements == reply.statements
    &&& match reply.outcome {
        Ok(c) => {
            &&& r.operation == c.operation
            &&& r.classification == Some(c)
            &&& !r.classifier_bypassed
        },
        Err(_) => {
            &&& r.operation == Operation::ExecuteDml
            &&& r.classifier_bypassed
            &&& r.classification is Some
            &&& r.classification->0.operation == Operation::ExecuteDml
            &&& r.classification->0.dml_reason == Some(DmlReason::Ddl)
            &&& r.classification->0.statement_count == reply.statements->0@.len()
            &&& texts(r.classification->0.statements@) == statement_texts(reply.statements->0@)
            &&& r.classification->0.is_ddl_only
        },
    }
}

impl Classifying {
    /// Takes the reply of the classifier.
    pub fn classified(self, reply: Classified) -> (r: Result<Reviewing, Refusal>)
        ensures
            match r {
                Err(x) => {
                    &&& classify_refusal(self.submission.input, reply) == Some(
                        (x.error@, x.ddl_denied),
                    )
                    &&& x.audit is None
                },
                Ok(s) => {
                    &&& classify_refusal(self.submission.input, reply) is None
                    &&& s.submission == self.submission
                    &&& s.dialect == self.dialect
                    &&& resolved_from(s.resolved, reply)
                },
            },
    {
        match reply.outcome {
            Ok(c) => {
                let operation = c.operation;
                Ok(
                    Reviewing {
                        submission: self.submission,
                        dialect: self.dialect,
                        resolved: Resolved {
                            operation,
                            classification: Some(c),
                            statements: reply.statements,
                            classifier_bypassed: false,
                        },
                    },
                )
            },
            Err(ClassifyError::Empty) => Err(
                Refusal {
                    error: AppError::Validation("empty query".to_string()),
                    ddl_denied: false,
                    audit: None,
                },
            ),
            Err(ClassifyError::Rejected { reason }) => {
                if self.submission.input.emergency && self.submission.input.allow_ddl {
                    if !every_eligible(&reply.statements) {
                        return Err(
                            Refusal {
                                error: BreakGlassDenial::NonBypassableStatement {
                                    reason,
                                }.into_app_error(),
                                ddl_denied: true,
                                audit: None,
                            },
                        );
                    }
                    let (statements, statement_count) = match &reply.statements {
                        Some(v) => (collect_statement_texts(v), v.len()),
                        None => (Vec::new(), 0),
                    };
                    Ok(
                        Reviewing {
                            submission: self.submission,
                            dialect: self.dialect,
                            resolved: Resolved {
                                operation: Operation::ExecuteDml,
                                classification: Some(
                                    Classification {
                                        operation: Operation::ExecuteDml,
                                        dml_reason: Some(DmlReason::Ddl),
                                        statement_count,
                                        statements,
                                        is_ddl_only: true,
                                    },
                                ),
                                statements: reply.statements,
                                classifier_bypassed: true,
                            },
                        },
                    )
                } else if self.submission.input.emergency {
                    Err(
                        Refusal {
                            error: BreakGlassDenial::MissingAllowDdl {
                                original_reason: reason,
                            }.into_app_error(),
                            ddl_denied: false,
                            audit: None,
                        },
                    )
                } else {
                    Err(
                        Refusal {
                            error: AppError::Validation(reason),
                            ddl_denied: false,
                            audit: None,
                        },
                    )
                }
            },
        }
    }
}

/// What a review rule asks for.
#[derive(Clone, Copy, Debug, PartialEq, Eq, Structural)]
pub enum RuleAction {
    Off,
    Warn,
    Block,
}

/// A finding of the review.
pub struct Finding {
    pub rule: String,
    pub message: String,
    pub action: RuleAction,
    pub break_glass_bypassable: bool,
}

/// The reply of the SQL review: the statements, what was found, and the tables
/// they name.
pub struct Review {
    pub statements: Vec<ParsedStatement>,
    pub findings: Vec<Finding>,
    pub blocked: bool,
    pub tables: Vec<TableRef>,
}

/// The messages of the blocking findings, in order.
pub open spec fn block_reasons(findings: Seq<Finding>) -> Seq<Seq<char>>
    decreases findings.len(),
{
    if findings.len() == 0 {
        Seq::empty()
    } else if findings.last().action == RuleAction::Block {
        block_reasons(findings.drop_last()).push(findings.last().message@)
    } else {
        block_reasons(findings.drop_last())
    }
}

/// Whether some finding blocks even in an emergency.
pub open spec fn blocks_hard(findings: Seq<Finding>) -> bool {
    exists|i: int|
        0 <= i < findings.len() && (#[trigger] findings[i]).action == RuleAction::Block
            && !findings[i].break_glass_bypassable
}

/// The messages of the blocking findings, in order.
pub fn collect_block_reasons(findings: &Vec<Finding>) -> (r: Vec<String>)
    ensures
        texts(r@) == block_reasons(findings@),
{
    let mut out: Vec<String> = Vec::new();
    let n: usize = findings.len();
    let mut i: usize = 0;
    assert(texts(out@) =~= block_reasons(findings@.take(0)));
    while i < n
        invariant
            i <= n,
            n == findings@.len(),
            texts(out@) == block_reasons(findings@.take(i as int)),
        decreases n - i,
    {
        proof {
            assert(findings@.take(i + 1).drop_last() =~= findings@.take(i as int));
            assert(findings@.take(i + 1).last() == findings@[i as int]);
        }
        let ghost before = texts(out@);
        if findings[i].action == RuleAction::Block {
            out.push(findings[i].message.clone());
            assert(texts(out@) =~= before.push(findings@[i as int].message@));
        }
        i += 1;
    }
    assert(findings@.take(n as int) =~= findings@);
    out
}

/// Whether some finding blocks even in an emergency.
pub fn has_hard_block(findings: &Vec<Finding>) -> (r: bool)
    ensures
        r == blocks_hard(findings@),
{
    let n: usize = findings.len();
    let mut i: usize = 0;
    while i < n
        invariant
            i <= n,
            n == findings@.len(),
            forall|k: int|
                0 <= k < i ==> !((#[trigger] findings@[k]).action == RuleAction::Block
                    && !findings@[k].break_glass_bypassable),
        decreases n - i,
    {
        if findings[i].action == RuleAction::Block && !findings[i].break_glass_bypassable {
            assert(findings@[i as int].action == RuleAction::Block);
            return true;
        }
        i += 1;
    }
    false
}

/// Whether the review stops the submission: it blocks, and the block is not
/// lifted for an emergency schema change.
pub open spec fn review_stops(input: CreateRequestInput, resolved: Resolved, review: Review) -> bool {
    review.blocked && !(wants_bypass(input) && all_eligible(resolved.statements) && !blocks_hard(
        review.findings@,
    ))
}

/// What the review leads to.
pub enum ReviewStep {
    /// The statement could not be parsed; authorization is due.
    Unparsed(Authorizing),
    /// The statement is assessed next.
    Assess(Assessing),
    /// The statement is blocked; the time of the refusal is due.
    Blocked(BlockedReview),
}

/// A blocked submission. Due: the current time, for the audit record.
pub struct BlockedReview {
    pub reasons: Vec<String>,
    pub bypass_attempted: bool,
    pub caller_id: String,
    pub database: String,
    pub environment: String,
}

/// Due: look up the schema snapshot and the named tables, then have the risk
/// evaluated.
pub struct Assessing {
    pub submission: Submission,
    pub dialect: Dialect,
    pub resolved: Resolved,
    pub review: Review,
    pub reviewer_bypassed: bool,
}

/// What is known about the statement of a submission.
pub struct AssessmentResult {
    pub risk_level: Option<RiskLevel>,
    pub review_json: Option<String>,
    pub risk_json: Option<String>,
    pub parsed_stmt_texts: Option<Vec<String>>,
    pub tables_json: Option<String>,
    pub schema_collected_at: Option<String>,
    pub findings_count: usize,
    pub risk_factors: Vec<String>,
    pub schema_status: SchemaStatus,
}

/// A submission whose statement is known.
pub struct Draft {
    pub submission: Submission,
    pub resolved: Resolved,
    pub reviewer_bypassed: bool,
    pub assessment: AssessmentResult,
}

/// Due: authorize the caller for the permission on the database and
/// environment.
pub struct Authorizing {
    pub draft: Draft,
}

/// Whether nothing is known about a statement.
pub open spec fn unassessed(a: AssessmentResult) -> bool {
    &&& a.risk_level is None
    &&& a.review_json is None
    &&& a.risk_json is None
    &&& a.parsed_stmt_texts is None
    &&& a.tables_json is None
    &&& a.schema_collected_at is None
    &&& a.findings_count == 0
    &&& a.risk_factors@.len() == 0
    &&& a.schema_status == SchemaStatus::Unavailable
}

impl Reviewing {
    /// Takes the review, or nothing where the statement cannot be parsed. A
    /// statement that cannot be parsed is never blocked here.
    pub fn reviewed(self, reply: Option<Review>) -> (r: ReviewStep)
        ensures
            match reply {
                None => r matches ReviewStep::Unparsed(s) && {
                    &&& s.draft.submission == self.submission
                    &&& s.draft.resolved == self.resolved
                    &&& !s.draft.reviewer_bypassed
                    &&& unassessed(s.draft.assessment)
                },
                Some(review) => if review_stops(self.submission.input, self.resolved, review) {
                    r matches ReviewStep::Blocked(s) && {
                        &&& texts(s.reasons@) == block_reasons(review.findings@)
                        &&& s.bypass_attempted == wants_bypass(self.submission.input)
                        &&& s.caller_id == self.submission.caller_id
                        &&& s.database == self.submission.input.database
                        &&& s.environment == self.submission.input.environment
                    }
                } else {
                    r matches ReviewStep::Assess(s) && {
                        &&& s.submission == self.submission
                        &&& s.dialect == self.dialect
                        &&& s.resolved == self.resolved
                        &&& s.review == review
                        &&& s.reviewer_bypassed == review.blocked
                    }
                },
            },
    {
        match reply {
            None => ReviewStep::Unparsed(
                Authorizing {
                    draft: Draft {
                        submission: self.submission,
                        resolved: self.resolved,
                        reviewer_bypassed: false,
                        assessment: AssessmentResult {
                            risk_level: None,
                            review_json: None,
                            risk_json: None,
                            parsed_stmt_texts: None,
                            tables_json: None,
                            schema_collected_at: None,
                            findings_count: 0,
                            risk_factors: Vec::new(),
                            schema_status: SchemaStatus::Unavailable,
                        },
                    },
                },
            ),
            Some(review) => {
                let bypass: bool = self.submission.input.emergency
                    && self.submission.input.allow_ddl;
                if review.blocked && !(bypass && every_eligible(&self.resolved.statements)
                    && !has_hard_block(&review.findings)) {
                    return ReviewStep::Blocked(
                        BlockedReview {
                            reasons: collect_block_reasons(&review.findings),
                            bypass_attempted: bypass,
                            caller_id: self.submission.caller_id,
                            database: self.submission.input.database,
                            environment: self.submission.input.environment,
                        },
                    );
                }
                let reviewer_bypassed: bool = review.blocked;
                ReviewStep::Assess(
                    Assessing {
                        submission: self.submission,
                        dialect: self.dialect,
                        resolved: self.resolved,
                        review,
                        reviewer_bypassed,
                    },
                )
            },
        }
    }
}

impl BlockedReview {
    /// What the audit record of the refusal says beside its kind.
    pub open spec fn audit_metadata(self) -> Seq<char> {
        let rules = Map::<Seq<char>, JsonTree>::empty().insert(
            "blocked_rules"@,
            JsonTree::Array(text_trees(texts(self.reasons@))),
        );
        rendered_json(
            JsonTree::Object(
                if self.bypass_attempted {
                    rules.insert("break_glass_attempted"@, JsonTree::Bool(true))
                } else {
                    rules
                },
            ),
        )
    }

    /// What the caller is told.
    pub open spec fn refusal_text(self) -> Seq<char> {
        if self.bypass_attempted {
            "SQL blocked by review (not bypassable): "@ + join(texts(self.reasons@), "; "@)
        } else {
            "SQL blocked by review: "@ + join(texts(self.reasons@), "; "@)
        }
    }

    /// The refusal at the given time. A refused emergency change counts as
    /// denied; an ordinary refusal names the database and environment in its
    /// record.
    pub fn refuse(self, now: Timestamp) -> (r: Refusal)
        ensures
            r.error@ == ErrorView::Validation(self.refusal_text()),
            r.ddl_denied == self.bypass_attempted,
            r.audit is Some,
            r.audit->0.event_type@ == "request.blocked_by_review"@,
            r.audit->0.event_category@ == "request"@,
            r.audit->0.actor_id@ == self.caller_id@,
            r.audit->0.resource_id is None,
            r.audit->0.created_at == now,
            r.audit->0.request_id is None,
            r.audit->0.operation is None,
            r.audit->0.reason is None,
            r.audit->0.detail_fingerprint is None,
            r.audit->0.detail_raw is None,
            r.audit->0.metadata_json@ == self.audit_metadata(),
            self.bypass_attempted ==> r.audit->0.database_name is None
                && r.audit->0.environment is None,
            !self.bypass_attempted ==> r.audit->0.database_name == Some(self.database)
                && r.audit->0.environment == Some(self.environment),
    {
        let mut audit = AuditEvent::simple(
            "request.blocked_by_review",
            "request",
            self.caller_id.as_str(),
            None,
            now,
        );
        let rules = JsonObject::new().with("blocked_rules", Json::text_list(&self.reasons));
        if self.bypass_attempted {
            audit.metadata_json = rules.with(
                "break_glass_attempted",
                Json::Bool(true),
            ).build().render();
            Refusal {
                error: BreakGlassDenial::NonBypassableReviewRule {
                    reasons: self.reasons,
                }.into_app_error(),
                ddl_denied: true,
                audit: Some(audit),
            }
        } else {
            audit.database_name = Some(self.database);
            audit.environment = Some(self.environment);
            audit.metadata_json = rules.build().render();
            Refusal {
                error: AppError::Validation(
                    concat2("SQL blocked by review: ", join_texts(&self.reasons, "; ").as_str()),
                ),
                ddl_denied: false,
                audit: Some(audit),
            }
        }
    }
}

/// What the risk of a statement is evaluated from, beside its findings.
pub struct RiskInput {
    pub operation: Operation,
    pub schema_status: SchemaStatus,
    pub tables: Vec<TableRiskInfo>,
    pub statement_count: usize,
    pub has_dml: bool,
    pub allow_read_only: bool,
    pub safe_ddl: bool,
    pub max_estimated_rows: i64,
}

/// The reply of the risk evaluation.
pub struct RiskAssessment {
    pub level: RiskLevel,
    pub factors: Vec<String>,
}

/// Whether there is one statement and it is a harmless schema change.
pub open spec fn one_safe_ddl(v: Seq<ParsedStatement>) -> bool {
    v.len() == 1 && v[0].safe_ddl
}

/// The display name of a table: with its schema where that is written.
pub open spec fn table_ref_text(t: TableRef) -> Seq<char> {
    match t.schema {
        Some(s) => s@ + "."@ + t.name@,
        None => t.name@,
    }
}

/// The display names of tables, in order.
pub open spec fn table_ref_texts(v: Seq<TableRef>) -> Seq<Seq<char>> {
    v.map_values(|t: TableRef| table_ref_text(t))
}

/// The display names of tables, in order.
pub fn collect_table_names(v: &Vec<TableRef>) -> (r: Vec<String>)
    ensures
        texts(r@) == table_ref_texts(v@),
{
    let mut out: Vec<String> = Vec::new();
    let n: usize = v.len();
    let mut i: usize = 0;
    while i < n
        invariant
            i <= n,
            n == v@.len(),
            out@.len() == i,
            forall|k: int| 0 <= k < i ==> (#[trigger] out@[k])@ == table_ref_text(v@[k]),
        decreases n - i,
    {
        let name = match &v[i].schema {
            Some(s) => concat3(s.as_str(), ".", v[i].name.as_str()),
            None => v[i].name.clone(),
        };
        out.push(name);
        i += 1;
    }
    assert(texts(out@) =~= table_ref_texts(v@));
    out
}

/// The findings of a review as a document.
pub open spec fn finding_trees(findings: Seq<Finding>) -> Seq<JsonTree> {
    findings.map_values(
        |f: Finding|
            JsonTree::Object(
                Map::<Seq<char>, JsonTree>::empty().insert(
                    "rule"@,
                    JsonTree::Text(f.rule@),
                ).insert("message"@, JsonTree::Text(f.message@)),
            ),
    )
}

/// A review as a document.
pub open spec fn review_tree(review: Review) -> JsonTree {
    JsonTree::Object(
        Map::<Seq<char>, JsonTree>::empty().insert(
            "findings"@,
            JsonTree::Array(finding_trees(review.findings@)),
        ).insert("blocked"@, JsonTree::Bool(review.blocked)),
    )
}

/// A risk as a document.
pub open spec fn risk_tree(risk: RiskAssessment) -> JsonTree {
    JsonTree::Object(
        Map::<Seq<char>, JsonTree>::empty().insert(
            "level"@,
            JsonTree::Text(risk.level.text()),
        ).insert("factors"@, JsonTree::Array(text_trees(texts(risk.factors@)))),
    )
}

fn review_json(review: &Review) -> (r: Json)
    ensures
        r@ == review_tree(*review),
{
    let mut items: Vec<Json> = Vec::new();
    let n: usize = review.findings.len();
    let mut i: usize = 0;
    while i < n
        invariant
            i <= n,
            n == review.findings@.len(),
            items@.len() == i,
            forall|k: int|
                0 <= k < i ==> (#[trigger] items@[k])@ == finding_trees(review.findings@)[k],
        decreases n - i,
    {
        let f = &review.findings[i];
        items.push(
            JsonObject::new().with("rule", Json::text(f.rule.as_str())).with(
                "message",
                Json::text(f.message.as_str()),
            ).build(),
        );
        i += 1;
    }
    assert(trees(items@) =~= finding_trees(review.findings@));
    JsonObject::new().with("findings", Json::Array(items)).with(
        "blocked",
        Json::Bool(review.blocked),
    ).build()
}

/// Whether `a` is the assessment of a reviewed statement.
pub open spec fn assessed_as(
    a: AssessmentResult,
    review: Review,
    snapshot: Result<Option<SchemaSnapshotRecord>, AppError>,
    risk: RiskAssessment,
) -> bool {
    &&& a.risk_level == Some(risk.level)
    &&& a.review_json is Some
    &&& a.review_json->0@ == rendered_json(review_tree(review))
    &&& a.risk_json is Some
    &&& a.risk_json->0@ == rendered_json(risk_tree(risk))
    &&& a.parsed_stmt_texts is Some
    &&& texts(a.parsed_stmt_texts->0@) == statement_texts(review.statements@)
    &&& a.tables_json is Some
    &&& a.tables_json->0@ == rendered_json(
        JsonTree::Array(text_trees(table_ref_texts(review.tables@))),
    )
    &&& tables_in(Some(a.tables_json->0@)) == text_trees(table_ref_texts(review.tables@))
    &&& a.schema_collected_at == schema_status_of(snapshot).1
    &&& a.findings_count == review.findings@.len()
    &&& a.risk_factors@ == risk.factors@
    &&& a.schema_status == schema_status_of(snapshot).0
}

impl Assessing {
    /// What the risk is evaluated from, by the replies of the snapshot and the
    /// table lookups; a failed lookup counts as nothing found.
    pub fn risk_input(
        &self,
        snapshot: &Result<Option<SchemaSnapshotRecord>, AppError>,
        tables: &Result<Option<String>, AppError>,
    ) -> (r: RiskInput)
        ensures
            r.operation == self.resolved.operation,
            r.schema_status == schema_status_of(*snapshot).0,
            match *tables {
                Ok(Some(json)) => risk_infos_of(r.tables@, documents(json@)),
                _ => r.tables@.len() == 0,
            },
            r.statement_count == self.review.statements@.len(),
            r.has_dml == (self.resolved.operation is ExecuteDml),
            r.allow_read_only == (self.resolved.operation is ExecuteSelect
                && match self.submission.auto_entry {
                Some(e) => e.allow_read_only,
                None => true,
            }),
            r.safe_ddl == ((match self.submission.auto_entry {
                Some(e) => e.allow_safe_ddl,
                None => true,
            }) && one_safe_ddl(self.review.statements@) && self.review.findings@.len() == 0),
            r.max_estimated_rows == (match self.submission.auto_entry {
                Some(e) => e.max_estimated_rows as i64,
                None => 1000i64,
            }),
    {
        let (allow_ro, allow_ddl, max_rows): (bool, bool, i64) = match self.submission.auto_entry {
            Some(e) => (
                e.allow_read_only,
                e.allow_safe_ddl,
                #[verifier::truncate]
                (e.max_estimated_rows as i64),
            ),
            None => (true, true, 1000),
        };
        RiskInput {
            operation: self.resolved.operation,
            schema_status: resolve_schema_status(snapshot).0,
            tables: match tables {
                Ok(Some(json)) => parse_table_risk_info(json.as_str()),
                _ => Vec::new(),
            },
            statement_count: self.review.statements.len(),
            has_dml: self.resolved.operation == Operation::ExecuteDml,
            allow_read_only: self.resolved.operation == Operation::ExecuteSelect && allow_ro,
            safe_ddl: allow_ddl && self.review.statements.len() == 1
                && self.review.statements[0].safe_ddl && self.review.findings.len() == 0,
            max_estimated_rows: max_rows,
        }
    }

    /// Takes the evaluated risk.
    pub fn assessed(
        self,
        snapshot: &Result<Option<SchemaSnapshotRecord>, AppError>,
        risk: RiskAssessment,
    ) -> (r: Authorizing)
        ensures
            r.draft.submission == self.submission,
            r.draft.resolved == self.resolved,
            r.draft.reviewer_bypassed == self.reviewer_bypassed,
            assessed_as(r.draft.assessment, self.review, *snapshot, risk),
    {
        let (schema_status, schema_collected_at) = resolve_schema_status(snapshot);
        let names = collect_table_names(&self.review.tables);
        let risk_json = JsonObject::new().with("level", Json::text(risk.level.as_str())).with(
            "factors",
            Json::text_list(&risk.factors),
        ).build().render();
        Authorizing {
            draft: Draft {
                submission: self.submission,
                resolved: self.resolved,
                reviewer_bypassed: self.reviewer_bypassed,
                assessment: AssessmentResult {
                    risk_level: Some(risk.level),
                    review_json: Some(review_json(&self.review).render()),
                    risk_json: Some(risk_json),
                    parsed_stmt_texts: Some(collect_statement_texts(&self.review.statements)),
                    tables_json: Some(names_json(&names)),
                    schema_collected_at,
                    findings_count: self.review.findings.len(),
                    risk_factors: risk.factors,
                    schema_status,
                },
            },
        }
    }
}

/// The permission that a submission needs.
pub open spec fn needed_permission(emergency: bool, operation: Operation) -> Permission {
    if emergency {
        Permission::RequestBreakGlass
    } else if operation is ExecuteSelect {
        Permission::RequestQuery
    } else {
        Permission::RequestExecute
    }
}

/// What follows the first authorization.
pub enum AuthorizeStep {
    /// Due: authorize the caller for schema changes in an emergency too.
    Ddl(DdlAuthorizing),
    /// Due: parse the selectors that the result is shared with.
    Selectors(SelectorCheck),
}

/// Due: authorize the caller for `RequestBreakGlassDdl`.
pub struct DdlAuthorizing {
    pub draft: Draft,
}

/// Due: parse the selectors of `share_with`.
pub struct SelectorCheck {
    pub draft: Draft,
}

impl Authorizing {
    /// The permission to authorize the caller for.
    pub fn permission(&self) -> (r: Permission)
        ensures
            r == needed_permission(
                self.draft.submission.input.emergency,
                self.draft.resolved.operation,
            ),
    {
        if self.draft.submission.input.emergency {
            Permission::RequestBreakGlass
        } else if self.draft.resolved.operation == Operation::ExecuteSelect {
            Permission::RequestQuery
        } else {
            Permission::RequestExecute
        }
    }

    /// Takes the answer of the authorizer.
    pub fn authorized(self, reply: Result<(), AuthzError>) -> (r: Result<AuthorizeStep, AppError>)
        ensures
            match reply {
                Err(e) => r matches Err(x) && x@ == ErrorView::Forbidden(e@),
                Ok(_) => match r {
                    Ok(AuthorizeStep::Ddl(s)) => self.draft.submission.input.allow_ddl && s.draft
                        == self.draft,
                    Ok(AuthorizeStep::Selectors(s)) => !self.draft.submission.input.allow_ddl
                        && s.draft == self.draft,
                    Err(_) => false,
                },
            },
    {
        match reply {
            Err(e) => Err(AppError::Forbidden(e)),
            Ok(_) => {
                if self.draft.submission.input.allow_ddl {
                    Ok(AuthorizeStep::Ddl(DdlAuthorizing { draft: self.draft }))
                } else {
                    Ok(AuthorizeStep::Selectors(SelectorCheck { draft: self.draft }))
                }
            },
        }
    }
}

impl DdlAuthorizing {
    /// Takes the answer of the authorizer on `RequestBreakGlassDdl`.
    pub fn authorized(self, reply: Result<(), AuthzError>) -> (r: Result<SelectorCheck, AppError>)
        ensures
            match reply {
                Err(e) => r matches Err(x) && x@ == ErrorView::Forbidden(e@),
                Ok(_) => r matches Ok(s) && s.draft == self.draft,
            },
    {
        match reply {
            Err(e) => Err(AppError::Forbidden(e)),
            Ok(_) => Ok(SelectorCheck { draft: self.draft }),
        }
    }
}

/// The first selector that does not parse, from position `i` on.
pub open spec fn selector_error(
    selectors: Seq<String>,
    errors: Seq<Option<String>>,
    i: int,
) -> Option<ErrorView>
    decreases selectors.len() - i,
{
    if i < 0 || i >= selectors.len() || i >= errors.len() {
        None
    } else {
        match errors[i] {
            Some(e) => Some(
                ErrorView::Validation(
                    "invalid share_with selector '"@ + selectors[i]@ + "': "@ + e@,
                ),
            ),
            None => selector_error(selectors, errors, i + 1),
        }
    }
}

/// Which rule on emergencies and repairs a submission breaks.
pub open spec fn emergency_error(input: CreateRequestInput, operation: Operation) -> Option<
    ErrorView,
> {
    if input.emergency && input.reason is None {
        Some(ErrorView::Validation("reason is required for emergency requests"@))
    } else if operation is MigrateRepair && !input.emergency {
        Some(ErrorView::Validation("migrate_repair requires emergency flag (break-glass)"@))
    } else if input.emergency && input.channel.restricted() {
        Some(ErrorView::Validation("emergency requests are not allowed via MCP/Slack"@))
    } else {
        None
    }
}

/// Why a draft is refused after authorization.
pub open spec fn rule_error(draft: Draft, errors: Seq<Option<String>>) -> Option<ErrorView> {
    match selector_error(draft.submission.input.share_with@, errors, 0) {
        Some(e) => Some(e),
        None => emergency_error(draft.submission.input, draft.resolved.operation),
    }
}

/// Due: whether the database is registered in the environment.
pub struct RegistryCheck {
    pub draft: Draft,
}

impl SelectorCheck {
    /// Takes what the selector parser says of each entry of `share_with`: why
    /// it does not parse, or nothing.
    pub fn checked(self, errors: &Vec<Option<String>>) -> (r: Result<RegistryCheck, AppError>)
        requires
            errors@.len() == self.draft.submission.input.share_with@.len(),
        ensures
            match r {
                Err(e) => rule_error(self.draft, errors@) == Some(e@),
                Ok(s) => rule_error(self.draft, errors@) is None && s.draft == self.draft,
            },
    {
        let n: usize = errors.len();
        let mut i: usize = 0;
        while i < n
            invariant
                i <= n,
                n == errors@.len(),
                n == self.draft.submission.input.share_with@.len(),
                selector_error(self.draft.submission.input.share_with@, errors@, 0)
                    == selector_error(self.draft.submission.input.share_with@, errors@, i as int),
            decreases n - i,
        {
            match &errors[i] {
                Some(e) => {
                    return Err(
                        AppError::Validation(
                            concat4(
                                "invalid share_with selector '",
                                self.draft.submission.input.share_with[i].as_str(),
                                "': ",
                                e.as_str(),
                            ),
                        ),
                    );
                },
                None => {},
            }
            i += 1;
        }
        let emergency: bool = self.draft.submission.input.emergency;
        if emergency && self.draft.submission.input.reason.is_none() {
            return Err(
                AppError::Validation("reason is required for emergency requests".to_string()),
            );
        }
        if self.draft.resolved.operation == Operation::MigrateRepair && !emergency {
            return Err(
                AppError::Validation(
                    "migrate_repair requires emergency flag (break-glass)".to_string(),
                ),
            );
        }
        if emergency && self.draft.submission.input.channel.is_restricted() {
            return Err(
                AppError::Validation(
                    "emergency requests are not allowed via MCP/Slack".to_string(),
                ),
            );
        }
        Ok(RegistryCheck { draft: self.draft })
    }
}

/// What follows the registry lookup.
pub enum RegistryStep {
    /// Not registered. Due: the registered pairs, for the message.
    Unregistered(Unregistered),
    /// Due: look for a request of the caller with the same idempotency key.
    Lookup(IdempotencyLookup),
    /// Due: the workflow that applies.
    Fresh(WorkflowLookup),
}

/// A submission for a database that is not registered in its environment.
pub struct Unregistered {
    pub database: String,
    pub environment: String,
}

/// Due: find the caller's request with the idempotency key.
pub struct IdempotencyLookup {
    pub draft: Draft,
}

/// Due: the workflow for database, environment and operation.
pub struct WorkflowLookup {
    pub draft: Draft,
}

impl RegistryCheck {
    /// Takes whether the database is registered.
    pub fn registered(self, exists: bool) -> (r: RegistryStep)
        ensures
            match r {
                RegistryStep::Unregistered(s) => {
                    &&& !exists
                    &&& s.database == self.draft.submission.input.database
                    &&& s.environment == self.draft.submission.input.environment
                },
                RegistryStep::Lookup(s) => {
                    &&& exists
                    &&& self.draft.submission.input.idempotency_key is Some
                    &&& s.draft == self.draft
                },
                RegistryStep::Fresh(s) => {
                    &&& exists
                    &&& self.draft.submission.input.idempotency_key is None
                    &&& s.draft == self.draft
                },
            },
    {
        if !exists {
            RegistryStep::Unregistered(
                Unregistered {
                    database: self.draft.submission.input.database,
                    environment: self.draft.submission.input.environment,
                },
            )
        } else if self.draft.submission.input.idempotency_key.is_some() {
            RegistryStep::Lookup(IdempotencyLookup { draft: self.draft })
        } else {
            RegistryStep::Fresh(WorkflowLookup { draft: self.draft })
        }
    }
}

/// What the caller is told about a database that is not registered.
pub open spec fn unregistered_text(
    database: Seq<char>,
    environment: Seq<char>,
    listing: Result<Vec<(String, String)>, AppError>,
) -> Seq<char> {
    let base = "database '"@ + database + "' not registered in environment '"@ + environment
        + "'"@;
    match listing {
        Ok(pairs) => {
            let envs = environments_of(pairs@, database);
            if envs.len() == 0 {
                base + ". Register it with: dbward database register"@
            } else if envs.len() <= 5 {
                base + ". Available environments: "@ + join(envs, ", "@)
                    + ". Use --environment to specify"@
            } else {
                base + ". Use --environment to specify the correct environment"@
            }
        },
        Err(_) => base,
    }
}

impl Unregistered {
    /// The error, with a hint from the registered pairs where they could be
    /// listed.
    pub fn explain(self, listing: Result<Vec<(String, String)>, AppError>) -> (r: AppError)
        ensures
            r@ == ErrorView::Validation(
                unregistered_text(self.database@, self.environment@, listing),
            ),
    {
        let mut msg = concat5(
            "database '",
            self.database.as_str(),
            "' not registered in environment '",
            self.environment.as_str(),
            "'",
        );
        match listing {
            Ok(pairs) => {
                let envs = collect_environments(&pairs, self.database.as_str());
                assert(texts(envs@).len() == envs@.len());
                if envs.len() == 0 {
                    msg.append(". Register it with: dbward database register");
                } else if envs.len() <= 5 {
                    msg.append(". Available environments: ");
                    msg.append(join_texts(&envs, ", ").as_str());
                    msg.append(". Use --environment to specify");
                } else {
                    msg.append(". Use --environment to specify the correct environment");
                }
            },
            Err(_) => {},
        }
        AppError::Validation(msg)
    }
}

/// The fingerprint of a statement.
pub open spec fn fingerprint(detail: Seq<char>) -> Seq<char> {
    hex_text(sha256(encode_utf8(detail)))
}

/// The selectors among approver documents, in order.
pub open spec fn selectors_in(approvers: Seq<JsonTree>) -> Seq<Seq<char>>
    decreases approvers.len(),
{
    if approvers.len() == 0 {
        Seq::empty()
    } else {
        match approvers.last().at("selector"@).as_text() {
            Some(s) => selectors_in(approvers.drop_last()).push(s),
            None => selectors_in(approvers.drop_last()),
        }
    }
}

/// The approvers of the first step of a stored workflow.
pub open spec fn first_step_approvers(workflow: JsonTree) -> Seq<Seq<char>> {
    match workflow.at("steps"@).item(0).at("approvers"@).as_array() {
        Some(a) => selectors_in(a),
        None => Seq::empty(),
    }
}

/// The approvers of a stored request: those of its first step while it is
/// pending.
pub open spec fn stored_approvers(req: Request) -> Seq<Seq<char>> {
    match req.workflow_snapshot_json {
        Some(json) => if req.status == RequestStatus::Pending {
            match parsed_json(json@) {
                Some(workflow) => first_step_approvers(workflow),
                None => Seq::empty(),
            }
        } else {
            Seq::empty()
        },
        None => Seq::empty(),
    }
}

/// The approvers of the first step of a stored workflow.
pub fn workflow_approvers(workflow: &Json) -> (r: Vec<String>)
    ensures
        texts(r@) == first_step_approvers(workflow@),
{
    let mut out: Vec<String> = Vec::new();
    let steps = match workflow.get("steps") {
        Some(j) => j.as_array(),
        None => None,
    };
    let first = match steps {
        Some(v) => {
            if v.len() > 0 {
                assert(trees(v@)[0] == v@[0]@);
                Some(&v[0])
            } else {
                None
            }
        },
        None => None,
    };
    let approvers = match first {
        Some(j) => crate::snapshot::array_field(j, "approvers"),
        None => None,
    };
    match approvers {
        Some(v) => {
            let ghost all = trees(v@);
            let n: usize = v.len();
            let mut i: usize = 0;
            assert(texts(out@) =~= selectors_in(all.take(0)));
            while i < n
                invariant
                    i <= n,
                    n == v@.len(),
                    all == trees(v@),
                    texts(out@) == selectors_in(all.take(i as int)),
                decreases n - i,
            {
                proof {
                    assert(all.take(i + 1).drop_last() =~= all.take(i as int));
                    assert(all.take(i + 1).last() == v@[i as int]@);
                }
                let ghost before = texts(out@);
                match crate::snapshot::text_field(&v[i], "selector") {
                    Some(s) => {
                        out.push(s.clone());
                        assert(texts(out@) =~= before.push(s@));
                    },
                    None => {},
                }
                i += 1;
            }
            assert(all.take(n as int) =~= all);
        },
        None => {
            assert(texts(out@) =~= Seq::empty());
        },
    }
    out
}

/// The approvers of a stored request.
pub fn extract_approvers(req: &Request) -> (r: Vec<String>)
    ensures
        texts(r@) == stored_approvers(*req),
{
    let none: Vec<String> = Vec::new();
    assert(texts(none@) =~= Seq::empty());
    if req.status == RequestStatus::Pending {
        match &req.workflow_snapshot_json {
            Some(json) => match Json::parse(json.as_str()) {
                Some(workflow) => workflow_approvers(&workflow),
                None => none,
            },
            None => none,
        }
    } else {
        none
    }
}

/// Whether `o` is the answer for a request that exists already.
pub open spec fn existing_output(o: CreateRequestOutput, req: Request) -> bool {
    &&& o.id == req.id
    &&& o.status == req.status
    &&& o.operation == req.operation
    &&& o.is_existing
    &&& o.expires_at == req.expires_at
    &&& texts(o.approvers@) == stored_approvers(req)
}

fn answer_existing(req: Request) -> (r: CreateRequestOutput)
    ensures
        existing_output(r, req),
{
    let approvers = extract_approvers(&req);
    CreateRequestOutput {
        id: req.id,
        status: req.status,
        operation: req.operation,
        is_existing: true,
        expires_at: req.expires_at,
        approvers,
    }
}

/// What follows the idempotency lookup.
pub enum IdempotencyStep {
    /// The request exists already: this is the answer.
    Existing(CreateRequestOutput),
    /// Due: the workflow that applies.
    Fresh(WorkflowLookup),
}

/// Whether a stored request was made from another statement.
pub open spec fn fingerprint_differs(req: Request, detail: Seq<char>) -> bool {
    req.idempotency_fingerprint is Some && req.idempotency_fingerprint->0@ != fingerprint(detail)
}

impl IdempotencyLookup {
    /// Takes the caller's request with the same key, if there is one. The same
    /// key with another statement is a conflict.
    pub fn found(self, existing: Option<Request>) -> (r: Result<IdempotencyStep, AppError>)
        ensures
            match existing {
                None => r matches Ok(IdempotencyStep::Fresh(s)) && s.draft == self.draft,
                Some(req) => if fingerprint_differs(req, self.draft.submission.input.detail@) {
                    r matches Err(e) && e@ == ErrorView::Conflict(
                        "idempotency key conflict: same key used with different SQL"@,
                    )
                } else {
                    r matches Ok(IdempotencyStep::Existing(o)) && existing_output(o, req)
                },
            },
    {
        match existing {
            None => Ok(IdempotencyStep::Fresh(WorkflowLookup { draft: self.draft })),
            Some(req) => {
                let fp = sha256_text(self.draft.submission.input.detail.as_str());
                match &req.idempotency_fingerprint {
                    Some(stored) => {
                        if !same_text(stored.as_str(), fp.as_str()) {
                            return Err(
                                AppError::Conflict(
                                    "idempotency key conflict: same key used with different SQL".to_string(),
                                ),
                            );
                        }
                    },
                    None => {},
                }
                Ok(IdempotencyStep::Existing(answer_existing(req)))
            },
        }
    }
}

/// Why a request passes without approval.
#[derive(Clone, Copy, Debug, PartialEq, Eq, Structural)]
pub enum AutoApproveReason {
    EmptySteps,
    RiskBased,
}

/// What a workflow decides on a request.
#[derive(Clone, Copy, Debug, PartialEq, Eq, Structural)]
pub enum ApprovalDecision {
    AutoApproved { reason: AutoApproveReason },
    NeedsApproval,
    Pending,
}

/// What follows the workflow lookup.
pub enum DecisionStep {
    /// Due: have the workflow evaluated.
    Evaluate(Deciding),
    /// Due: the initial status, and the workflow as text.
    Decided(StatusLookup),
}

/// Due: evaluate the workflow for the assessed risk and the rule that applies.
pub struct Deciding {
    pub draft: Draft,
    pub workflow: Workflow,
}

/// Due: the initial status for the decision, and the workflow as text.
pub struct StatusLookup {
    pub draft: Draft,
    pub workflow: Option<Workflow>,
    pub decision: ApprovalDecision,
    pub needs_approval: bool,
}

impl WorkflowLookup {
    /// Takes the workflow that applies. Without one nothing is created, unless
    /// in an emergency.
    pub fn workflow(self, found: Option<Workflow>) -> (r: Result<DecisionStep, AppError>)
        ensures
            match found {
                Some(wf) => r matches Ok(DecisionStep::Evaluate(s)) && s.draft == self.draft
                    && s.workflow == wf,
                None => if self.draft.submission.input.emergency {
                    r matches Ok(DecisionStep::Decided(s)) && {
                        &&& s.draft == self.draft
                        &&& s.workflow is None
                        &&& s.decision == (ApprovalDecision::AutoApproved {
                            reason: AutoApproveReason::EmptySteps,
                        })
                        &&& !s.needs_approval
                    }
                } else {
                    r matches Err(e) && e@ == ErrorView::Validation(
                        "no workflow configured for "@ + self.draft.submission.input.database@
                            + "/"@ + self.draft.submission.input.environment@,
                    )
                },
            },
    {
        match found {
            Some(workflow) => Ok(
                DecisionStep::Evaluate(Deciding { draft: self.draft, workflow }),
            ),
            None => {
                if self.draft.submission.input.emergency {
                    Ok(
                        DecisionStep::Decided(
                            StatusLookup {
                                draft: self.draft,
                                workflow: None,
                                decision: ApprovalDecision::AutoApproved {
                                    reason: AutoApproveReason::EmptySteps,
                                },
                                needs_approval: false,
                            },
                        ),
                    )
                } else {
                    Err(
                        AppError::Validation(
                            concat4(
                                "no workflow configured for ",
                                self.draft.submission.input.database.as_str(),
                                "/",
                                self.draft.submission.input.environment.as_str(),
                            ),
                        ),
                    )
                }
            },
        }
    }
}

impl Deciding {
    /// Takes the decision of the workflow and whether it asks for approval.
    pub fn evaluated(self, decision: ApprovalDecision, needs_approval: bool) -> (r: StatusLookup)
        ensures
            r.draft == self.draft,
            r.workflow == Some(self.workflow),
            r.decision == decision,
            r.needs_approval == needs_approval,
    {
        StatusLookup {
            draft: self.draft,
            workflow: Some(self.workflow),
            decision,
            needs_approval,
        }
    }
}

/// A submission that will be created.
pub struct Composing {
    pub draft: Draft,
    pub workflow: Option<Workflow>,
    pub decision: ApprovalDecision,
    pub needs_approval: bool,
    pub status: RequestStatus,
    pub workflow_json: Option<String>,
}

/// Why a decided submission is refused.
pub open spec fn status_error(
    s: StatusLookup,
    workflow_json: Result<Option<String>, String>,
) -> Option<ErrorView> {
    if s.workflow is Some && s.workflow->0.require_reason && s.draft.submission.input.reason is None {
        Some(ErrorView::Validation("reason_required"@))
    } else {
        match workflow_json {
            Err(e) => Some(ErrorView::Internal("serialize workflow: "@ + e@)),
            Ok(_) => None,
        }
    }
}

impl StatusLookup {
    /// Takes the initial status, and the workflow as text or why it could not
    /// be written.
    pub fn status(self, status: RequestStatus, workflow_json: Result<Option<String>, String>) -> (r:
        Result<Composing, AppError>)
        ensures
            match r {
                Err(e) => status_error(self, workflow_json) == Some(e@),
                Ok(c) => {
                    &&& status_error(self, workflow_json) is None
                    &&& c.draft == self.draft
                    &&& c.workflow == self.workflow
                    &&& c.decision == self.decision
                    &&& c.needs_approval == self.needs_approval
                    &&& c.status == status
                    &&& Ok::<Option<String>, String>(c.workflow_json) == workflow_json
                },
            },
    {
        match &self.workflow {
            Some(wf) => {
                if wf.require_reason && self.draft.submission.input.reason.is_none() {
                    return Err(AppError::Validation("reason_required".to_string()));
                }
            },
            None => {},
        }
        match workflow_json {
            Err(e) => Err(AppError::Internal(concat2("serialize workflow: ", e.as_str()))),
            Ok(workflow_json) => Ok(
                Composing {
                    draft: self.draft,
                    workflow: self.workflow,
                    decision: self.decision,
                    needs_approval: self.needs_approval,
                    status,
                    workflow_json,
                },
            ),
        }
    }
}

/// How long a created request stays open: only while it is pending, by its
/// workflow or else by the default.
pub open spec fn pending_ttl(c: Composing) -> Option<u64> {
    if c.status != RequestStatus::Pending {
        None
    } else {
        match c.workflow {
            Some(wf) => match wf.pending_ttl_secs {
                Some(s) => Some(s),
                None => c.draft.submission.default_ttl_secs,
            },
            None => c.draft.submission.default_ttl_secs,
        }
    }
}

/// What led to a decision.
pub open spec fn decision_reasons(c: Composing) -> Seq<DecisionReason> {
    if c.draft.submission.input.emergency {
        seq![DecisionReason::BreakGlass]
    } else {
        match c.decision {
            ApprovalDecision::AutoApproved { reason } => match reason {
                AutoApproveReason::EmptySteps => seq![DecisionReason::EmptySteps],
                AutoApproveReason::RiskBased => seq![DecisionReason::RiskBelowThreshold],
            },
            ApprovalDecision::NeedsApproval => match c.draft.submission.auto_entry {
                None => seq![DecisionReason::NoAutoApproveRule],
                Some(e) => if e.max_risk_level is None {
                    seq![DecisionReason::AutoApproveDisabled]
                } else if c.draft.assessment.risk_level is None {
                    seq![DecisionReason::RiskUnavailable]
                } else {
                    seq![DecisionReason::RiskAboveThreshold]
                },
            },
            ApprovalDecision::Pending => seq![],
        }
    }
}

/// Whether `t` is the trace of the decision on `c`.
pub open spec fn traces(t: DecisionTrace, c: Composing) -> bool {
    let a = c.draft.assessment;
    let unparsed = a.parsed_stmt_texts is None;
    &&& t.version == 1
    &&& t.classification.resolved_operation == OperationKind::of(c.draft.resolved.operation)
    &&& t.sql_review.findings_count == a.findings_count
    &&& t.sql_review.parse_failed == unparsed
    &&& t.risk.level == (match a.risk_level {
        Some(l) => l,
        None => RiskLevel::Unavailable,
    })
    &&& t.risk.factors@ == (if unparsed {
        Seq::empty()
    } else {
        a.risk_factors@
    })
    &&& t.risk.schema_status == (if unparsed {
        SchemaStatus::Unavailable
    } else {
        a.schema_status
    })
    &&& match c.workflow {
        Some(wf) => {
            &&& t.workflow.matched is Some
            &&& t.workflow.matched->0.id == wf.id
            &&& t.workflow.matched->0.database == wf.database
            &&& t.workflow.matched->0.environment == wf.environment
            &&& t.workflow.matched->0.step_count == wf.steps@.len()
        },
        None => t.workflow.matched is None,
    }
    &&& t.decision.outcome == (if c.draft.submission.input.emergency || !c.needs_approval {
        Outcome::AutoApproved
    } else {
        Outcome::NeedsApproval
    })
    &&& t.decision.reasons@ == decision_reasons(c)
    &&& t.decision.auto_approve_threshold == (match c.draft.submission.auto_entry {
        Some(e) => e.max_risk_level,
        None => None,
    })
}

/// A request about to be written. Due: the trace as text.
pub struct Tracing {
    pub composing: Composing,
    pub now: Timestamp,
    pub now_text: String,
    pub id: String,
    pub expires_at: Option<Timestamp>,
    pub trace: DecisionTrace,
}

impl Composing {
    fn reasons(&self) -> (r: Vec<DecisionReason>)
        ensures
            r@ == decision_reasons(*self),
    {
        let mut out: Vec<DecisionReason> = Vec::new();
        if self.draft.submission.input.emergency {
            out.push(DecisionReason::BreakGlass);
        } else {
            match self.decision {
                ApprovalDecision::AutoApproved { reason } => match reason {
                    AutoApproveReason::EmptySteps => {
                        out.push(DecisionReason::EmptySteps);
                    },
                    AutoApproveReason::RiskBased => {
                        out.push(DecisionReason::RiskBelowThreshold);
                    },
                },
                ApprovalDecision::NeedsApproval => match self.draft.submission.auto_entry {
                    None => {
                        out.push(DecisionReason::NoAutoApproveRule);
                    },
                    Some(e) => {
                        if e.max_risk_level.is_none() {
                            out.push(DecisionReason::AutoApproveDisabled);
                        } else if self.draft.assessment.risk_level.is_none() {
                            out.push(DecisionReason::RiskUnavailable);
                        } else {
                            out.push(DecisionReason::RiskAboveThreshold);
                        }
                    },
                },
                ApprovalDecision::Pending => {},
            }
        }
        assert(out@ =~= decision_reasons(*self));
        out
    }

    /// How long the request stays open.
    pub fn ttl(&self) -> (r: Option<u64>)
        ensures
            r == pending_ttl(*self),
    {
        if self.status == RequestStatus::Pending {
            match &self.workflow {
                Some(wf) => match wf.pending_ttl_secs {
                    Some(s) => Some(s),
                    None => self.draft.submission.default_ttl_secs,
                },
                None => self.draft.submission.default_ttl_secs,
            }
        } else {
            None
        }
    }

    /// Takes the current time and a fresh identifier. The end of a pending
    /// request must lie within the range of dates.
    pub fn compose(self, now: Timestamp, id: String) -> (r: Tracing)
        requires
            now.valid(),
            pending_ttl(self) matches Some(s) ==> now.shiftable((s as i64) as int),
        ensures
            r.composing == self,
            r.now == now,
            r.now_text@ == rfc3339_text(now.secs as int, now.nanos as int),
            r.id == id,
            r.expires_at == (match pending_ttl(self) {
                Some(s) => Some(Timestamp { secs: (now.secs + (s as i64)) as i64, nanos: now.nanos }),
                None => None,
            }),
            traces(r.trace, self),
    {
        let expires_at = match self.ttl() {
            Some(secs) => Some(
                now.plus_secs(
                    #[verifier::truncate]
                    (secs as i64),
                ),
            ),
            None => None,
        };
        let unparsed: bool = self.draft.assessment.parsed_stmt_texts.is_none();
        let trace = DecisionTrace {
            version: 1,
            classification: TraceClassification {
                resolved_operation: OperationKind::from(self.draft.resolved.operation),
            },
            sql_review: SqlReview {
                findings_count: self.draft.assessment.findings_count,
                parse_failed: unparsed,
            },
            risk: Risk {
                level: match self.draft.assessment.risk_level {
                    Some(l) => l,
                    None => RiskLevel::Unavailable,
                },
                factors: if unparsed {
                    Vec::new()
                } else {
                    copy_texts(&self.draft.assessment.risk_factors)
                },
                schema_status: if unparsed {
                    SchemaStatus::Unavailable
                } else {
                    self.draft.assessment.schema_status
                },
            },
            workflow: WorkflowMatch {
                matched: match &self.workflow {
                    Some(wf) => Some(
                        WorkflowRef {
                            id: wf.id.clone(),
                            database: wf.database.clone(),
                            environment: wf.environment.clone(),
                            step_count: wf.steps.len(),
                        },
                    ),
                    None => None,
                },
            },
            decision: Decision {
                outcome: if self.draft.submission.input.emergency || !self.needs_approval {
                    Outcome::AutoApproved
                } else {
                    Outcome::NeedsApproval
                },
                reasons: self.reasons(),
                auto_approve_threshold: match self.draft.submission.auto_entry {
                    Some(e) => e.max_risk_level,
                    None => None,
                },
            },
        };
        let now_text = rfc3339(&now);
        Tracing { composing: self, now, now_text, id, expires_at, trace }
    }
}

/// The statements of a request as a document, unless the classifier could not
/// parse them.
pub open spec fn execution_plan(c: Option<Classification>) -> Option<Seq<char>> {
    match c {
        Some(c) => if c.dml_reason == Some(DmlReason::ParseFailure) {
            None
        } else {
            Some(rendered_json(JsonTree::Array(text_trees(texts(c.statements@)))))
        },
        None => None,
    }
}

/// Whether an optional string holds an optional text.
pub open spec fn holds_optional(s: Option<String>, t: Option<Seq<char>>) -> bool {
    match s {
        Some(s) => t == Some(s@),
        None => t is None,
    }
}

/// Whether `r` is the request that `t` and the text of its trace stand for.
pub open spec fn request_made(r: Request, t: Tracing, trace_json: String) -> bool {
    let c = t.composing;
    let input = c.draft.submission.input;
    &&& r.id == t.id
    &&& r.requester == c.draft.submission.caller_id
    &&& r.database == input.database
    &&& r.environment == input.environment
    &&& r.operation == c.draft.resolved.operation
    &&& r.detail == input.detail
    &&& r.status == c.status
    &&& r.emergency == input.emergency
    &&& r.reason == input.reason
    &&& r.idempotency_key == input.idempotency_key
    &&& holds_optional(
        r.idempotency_fingerprint,
        match input.idempotency_key {
            Some(_) => Some(fingerprint(input.detail@)),
            None => None,
        },
    )
    &&& r.metadata_json == input.metadata_json
    &&& r.share_with == input.share_with
    &&& r.no_result_store == input.no_result_store
    &&& r.workflow_snapshot_json == c.workflow_json
    &&& r.decision_trace_json == Some(trace_json)
    &&& holds_optional(r.execution_plan_json, execution_plan(c.draft.resolved.classification))
    &&& r.cancel_reason is None
    &&& r.cancelled_by is None
    &&& r.created_at == t.now
    &&& r.updated_at == t.now
    &&& r.resolved_at is None
    &&& r.expires_at == t.expires_at
}

/// A request with what its persistence and follow-up need.
pub struct Persisting {
    pub request: Request,
    pub caller_type: SubjectType,
    pub workflow: Option<Workflow>,
    pub assessment: AssessmentResult,
    pub statement_count: usize,
    pub classifier_bypassed: bool,
    pub reviewer_bypassed: bool,
    pub now_text: String,
}

/// How a request is persisted.
pub enum PersistStep {
    /// It waits. Due: the creation event.
    Pending(PersistPending),
    /// It is dispatched at once. Due: the creation and the dispatch event.
    Dispatch(PersistDispatch),
    /// It is dispatched at once past a refusal. Due: the creation and the
    /// dispatch event, the current time, and the statement without literals.
    Bypass(PersistBypass),
}

/// Due: the creation event.
pub struct PersistPending {
    pub persisting: Persisting,
}

/// Due: the creation event and the dispatch transition.
pub struct PersistDispatch {
    pub persisting: Persisting,
}

/// Due: the creation event, the dispatch transition, the current time and the
/// statement without literals.
pub struct PersistBypass {
    pub persisting: Persisting,
}

/// Whether a request is dispatched as soon as it is created.
pub open spec fn dispatched_at_once(status: RequestStatus) -> bool {
    status is AutoApproved || status is BreakGlass
}

/// Whether `p` carries the request of `t` and what follows from it.
pub open spec fn persists(p: Persisting, t: Tracing, trace_json: String) -> bool {
    &&& request_made(p.request, t, trace_json)
    &&& p.caller_type == t.composing.draft.submission.caller_type
    &&& p.workflow == t.composing.workflow
    &&& p.assessment == t.composing.draft.assessment
    &&& p.statement_count == (match t.composing.draft.resolved.classification {
        Some(c) => c.statement_count,
        None => 0,
    })
    &&& p.classifier_bypassed == t.composing.draft.resolved.classifier_bypassed
    &&& p.reviewer_bypassed == t.composing.draft.reviewer_bypassed
    &&& p.now_text == t.now_text
}

impl Tracing {
    /// Takes the trace as text, or why it could not be written.
    pub fn traced(self, trace_json: Result<String, String>) -> (r: Result<PersistStep, AppError>)
        ensures
            match trace_json {
                Err(e) => r matches Err(x) && x@ == ErrorView::Internal(
                    "serialize decision_trace: "@ + e@,
                ),
                Ok(json) => match r {
                    Ok(PersistStep::Pending(s)) => persists(s.persisting, self, json)
                        && !dispatched_at_once(self.composing.status),
                    Ok(PersistStep::Dispatch(s)) => persists(s.persisting, self, json)
                        && dispatched_at_once(self.composing.status)
                        && !s.persisting.classifier_bypassed && !s.persisting.reviewer_bypassed,
                    Ok(PersistStep::Bypass(s)) => persists(s.persisting, self, json)
                        && dispatched_at_once(self.composing.status) && (
                    s.persisting.classifier_bypassed || s.persisting.reviewer_bypassed),
                    Err(_) => false,
                },
            },
    {
        let trace_json = match trace_json {
            Err(e) => {
                return Err(
                    AppError::Internal(concat2("serialize decision_trace: ", e.as_str())),
                );
            },
            Ok(json) => json,
        };
        let c = self.composing;
        let input = c.draft.submission.input;
        let (execution_plan_json, statement_count): (Option<String>, usize) =
            match &c.draft.resolved.classification {
            Some(cl) => {
                let unparsed: bool = match cl.dml_reason {
                    Some(reason) => reason == DmlReason::ParseFailure,
                    None => false,
                };
                if unparsed {
                    (None, cl.statement_count)
                } else {
                    (Some(Json::text_list(&cl.statements).render()), cl.statement_count)
                }
            },
            None => (None, 0),
        };
        let idempotency_fingerprint = match &input.idempotency_key {
            Some(_) => Some(sha256_text(input.detail.as_str())),
            None => None,
        };
        let status = c.status;
        let classifier_bypassed: bool = c.draft.resolved.classifier_bypassed;
        let reviewer_bypassed: bool = c.draft.reviewer_bypassed;
        let persisting = Persisting {
            request: Request {
                id: self.id,
                requester: c.draft.submission.caller_id,
                database: input.database,
                environment: input.environment,
                operation: c.draft.resolved.operation,
                detail: input.detail,
                status,
                emergency: input.emergency,
                reason: input.reason,
                idempotency_key: input.idempotency_key,
                idempotency_fingerprint,
                metadata_json: input.metadata_json,
                share_with: input.share_with,
                no_result_store: input.no_result_store,
                workflow_snapshot_json: c.workflow_json,
                decision_trace_json: Some(trace_json),
                execution_plan_json,
                cancel_reason: None,
                cancelled_by: None,
                created_at: self.now,
                updated_at: self.now,
                resolved_at: None,
                expires_at: self.expires_at,
            },
            caller_type: c.draft.submission.caller_type,
            workflow: c.workflow,
            assessment: c.draft.assessment,
            statement_count,
            classifier_bypassed,
            reviewer_bypassed,
            now_text: self.now_text,
        };
        if status == RequestStatus::AutoApproved || status == RequestStatus::BreakGlass {
            if classifier_bypassed || reviewer_bypassed {
                Ok(PersistStep::Bypass(PersistBypass { persisting }))
            } else {
                Ok(PersistStep::Dispatch(PersistDispatch { persisting }))
            }
        } else {
            Ok(PersistStep::Pending(PersistPending { persisting }))
        }
    }
}

/// Whether `c` is what a change of status of the request of `p` by its
/// requester is asked for with.
pub open spec fn own_context(c: TransitionContext, p: Persisting) -> bool {
    &&& c.request_id == p.request.id
    &&& c.actor_id == p.request.requester
    &&& c.actor_type == p.caller_type
    &&& c.database == p.request.database
    &&& c.environment == p.request.environment
    &&& c.operation == p.request.operation
    &&& c.timestamp == p.request.created_at
    &&& c.requester_id == p.request.requester
}

impl Persisting {
    fn context(&self, metadata: EventMetadata) -> (r: TransitionContext)
        ensures
            own_context(r, *self),
            r.metadata == metadata,
    {
        TransitionContext {
            request_id: self.request.id.clone(),
            actor_id: self.request.requester.clone(),
            actor_type: self.caller_type,
            database: self.request.database.clone(),
            environment: self.request.environment.clone(),
            operation: self.request.operation,
            timestamp: self.request.created_at,
            metadata,
            requester_id: self.request.requester.clone(),
        }
    }

    /// What the creation event is asked for with.
    pub fn created_context(&self) -> (r: TransitionContext)
        ensures
            own_context(r, *self),
            r.metadata == (EventMetadata::Created {
                detail: self.request.detail,
                emergency: self.request.emergency,
            }),
    {
        self.context(
            EventMetadata::Created {
                detail: self.request.detail.clone(),
                emergency: self.request.emergency,
            },
        )
    }

    /// What the dispatch transition is asked for with.
    pub fn dispatched_context(&self) -> (r: TransitionContext)
        ensures
            own_context(r, *self),
            r.metadata == EventMetadata::Dispatched,
    {
        self.context(EventMetadata::Dispatched)
    }
}

/// One transaction: insert the request, mark it dispatched at its creation
/// time where `dispatch` says so, then write the records in order. The notices
/// go out once it is committed.
pub struct Commit {
    pub request: Request,
    pub dispatch: bool,
    pub records: Vec<AuditEvent>,
    pub notices: Vec<WebhookEvent>,
    pub final_status: RequestStatus,
    pub bypass: bool,
    pub workflow: Option<Workflow>,
    pub assessment: AssessmentResult,
    pub now_text: String,
}

/// Whether `c` writes the request of `p` with its first events.
pub open spec fn commits(c: Commit, p: Persisting, events: Seq<TransitionEvent>) -> bool {
    &&& c.request == p.request
    &&& c.workflow == p.workflow
    &&& c.assessment == p.assessment
    &&& c.now_text == p.now_text
    &&& events.len() <= c.records@.len()
    &&& forall|i: int|
        0 <= i < events.len() ==> plainly_records(
            #[trigger] c.records@[i],
            events[i],
            p.request.created_at,
        )
    &&& c.notices@.len() == events.len()
    &&& forall|i: int| 0 <= i < events.len() ==> notifies(#[trigger] c.notices@[i], events[i])
}

impl PersistPending {
    /// Takes the creation event.
    pub fn created(self, created: TransitionEvent) -> (r: Commit)
        ensures
            commits(r, self.persisting, seq![created]),
            r.records@.len() == 1,
            !r.dispatch,
            !r.bypass,
            r.final_status == self.persisting.request.status,
    {
        let p = self.persisting;
        let mut records: Vec<AuditEvent> = Vec::new();
        records.push(plain_audit_event(&created, p.request.created_at));
        let mut notices: Vec<WebhookEvent> = Vec::new();
        notices.push(build_webhook_event(&created));
        let final_status = p.request.status;
        Commit {
            request: p.request,
            dispatch: false,
            records,
            notices,
            final_status,
            bypass: false,
            workflow: p.workflow,
            assessment: p.assessment,
            now_text: p.now_text,
        }
    }
}

impl PersistDispatch {
    /// Takes the creation event and the answer to the dispatch.
    pub fn dispatched(self, created: TransitionEvent, reply: TransitionReply) -> (r: Result<
        Commit,
        AppError,
    >)
        ensures
            match reply {
                Err(e) => r matches Err(x) && x@ == ErrorView::Internal(e@),
                Ok(dispatched) => r matches Ok(c) && {
                    &&& commits(c, self.persisting, seq![created, dispatched])
                    &&& c.records@.len() == 2
                    &&& c.dispatch
                    &&& !c.bypass
                    &&& c.final_status == dispatched.new_status
                },
            },
    {
        let p = self.persisting;
        match reply {
            Err(e) => Err(AppError::Internal(e)),
            Ok(dispatched) => {
                let mut records: Vec<AuditEvent> = Vec::new();
                records.push(plain_audit_event(&created, p.request.created_at));
                records.push(plain_audit_event(&dispatched, p.request.created_at));
                let mut notices: Vec<WebhookEvent> = Vec::new();
                notices.push(build_webhook_event(&created));
                notices.push(build_webhook_event(&dispatched));
                Ok(
                    Commit {
                        request: p.request,
                        dispatch: true,
                        records,
                        notices,
                        final_status: dispatched.new_status,
                        bypass: false,
                        workflow: p.workflow,
                        assessment: p.assessment,
                        now_text: p.now_text,
                    },
                )
            },
        }
    }
}

/// What the record of an emergency schema change says beside its kind.
pub open spec fn bypass_metadata(p: Persisting, sql_redacted: Seq<char>) -> Seq<char> {
    rendered_json(
        JsonTree::Object(
            Map::<Seq<char>, JsonTree>::empty().insert(
                "request_id"@,
                JsonTree::Text(p.request.id@),
            ).insert("sql_redacted"@, JsonTree::Text(sql_redacted)).insert(
                "statement_count"@,
                JsonTree::Number(uint_number(p.statement_count as u64)),
            ).insert(
                "reason"@,
                JsonTree::Text(
                    match p.request.reason {
                        Some(s) => s@,
                        None => ""@,
                    },
                ),
            ).insert("classifier_bypassed"@, JsonTree::Bool(p.classifier_bypassed)).insert(
                "reviewer_bypassed"@,
                JsonTree::Bool(p.reviewer_bypassed),
            ),
        ),
    )
}

/// Whether `r` is the record of an emergency schema change.
pub open spec fn records_bypass(
    r: AuditEvent,
    p: Persisting,
    at: Timestamp,
    sql_redacted: Seq<char>,
) -> bool {
    &&& r.event_type@ == "ddl.break_glass_bypass"@
    &&& r.event_category@ == "request"@
    &&& r.actor_id@ == p.request.requester@
    &&& r.resource_id == Some(p.request.id)
    &&& r.created_at == at
    &&& r.request_id is None
    &&& r.database_name == Some(p.request.database)
    &&& r.environment == Some(p.request.environment)
    &&& r.operation is None
    &&& r.reason is None
    &&& r.detail_fingerprint is None
    &&& r.detail_raw is None
    &&& r.metadata_json@ == bypass_metadata(p, sql_redacted)
}

impl PersistBypass {
    /// Takes the creation event, the answer to the dispatch, the time of the
    /// third record and the statement without literals.
    pub fn dispatched(
        self,
        created: TransitionEvent,
        reply: TransitionReply,
        at: Timestamp,
        sql_redacted: String,
    ) -> (r: Result<Commit, AppError>)
        ensures
            match reply {
                Err(e) => r matches Err(x) && x@ == ErrorView::Internal(e@),
                Ok(dispatched) => r matches Ok(c) && {
                    &&& commits(c, self.persisting, seq![created, dispatched])
                    &&& c.records@.len() == 3
                    &&& records_bypass(c.records@[2], self.persisting, at, sql_redacted@)
                    &&& c.dispatch
                    &&& c.bypass
                    &&& c.final_status == RequestStatus::Dispatched
                },
            },
    {
        let p = self.persisting;
        match reply {
            Err(e) => Err(AppError::Internal(e)),
            Ok(dispatched) => {
                let mut ddl = AuditEvent::simple(
                    "ddl.break_glass_bypass",
                    "request",
                    p.request.requester.as_str(),
                    Some(p.request.id.clone()),
                    at,
                );
                ddl.database_name = Some(p.request.database.clone());
                ddl.environment = Some(p.request.environment.clone());
                let reason = match &p.request.reason {
                    Some(s) => s.clone(),
                    None => "".to_string(),
                };
                ddl.metadata_json =
                JsonObject::new().with("request_id", Json::text(p.request.id.as_str())).with(
                    "sql_redacted",
                    Json::Text(sql_redacted),
                ).with("statement_count", Json::unsigned(p.statement_count as u64)).with(
                    "reason",
                    Json::Text(reason),
                ).with("classifier_bypassed", Json::Bool(p.classifier_bypassed)).with(
                    "reviewer_bypassed",
                    Json::Bool(p.reviewer_bypassed),
                ).build().render();
                let mut records: Vec<AuditEvent> = Vec::new();
                records.push(plain_audit_event(&created, p.request.created_at));
                records.push(plain_audit_event(&dispatched, p.request.created_at));
                records.push(ddl);
                let mut notices: Vec<WebhookEvent> = Vec::new();
                notices.push(build_webhook_event(&created));
                notices.push(build_webhook_event(&dispatched));
                Ok(
                    Commit {
                        request: p.request,
                        dispatch: true,
                        records,
                        notices,
                        final_status: RequestStatus::Dispatched,
                        bypass: true,
                        workflow: p.workflow,
                        assessment: p.assessment,
                        now_text: p.now_text,
                    },
                )
            },
        }
    }
}

/// Whether a failed transaction tells that the idempotency key is taken.
pub open spec fn key_taken(e: AppError) -> bool {
    e matches AppError::Conflict(m) && (contains_seq(m@, "idempotency_key"@) || contains_seq(
        m@,
        "UNIQUE constraint"@,
    ))
}

/// What the transaction leads to.
pub enum CommitStep {
    /// Written; what remains to be done.
    Done(Completed),
    /// Another request with the key was written meanwhile. Due: find it.
    Raced(RaceLookup),
    /// Not written.
    Failed(CommitFailure),
}

/// Due: find the caller's request with the key.
pub struct RaceLookup {
    pub caller_id: String,
    pub key: String,
}

/// A failed transaction; an emergency schema change whose records could not be
/// written is counted.
pub struct CommitFailure {
    pub error: AppError,
    pub audit_failure: bool,
}

/// A created request: the answer, and what is done after the commit. Nothing
/// of that changes the answer.
pub struct Completed {
    pub output: CreateRequestOutput,
    pub notices: Vec<WebhookEvent>,
    pub ddl_allowed: bool,
    pub explain: Option<Vec<String>>,
    pub context: Option<RequestContextRecord>,
    pub database: String,
    pub environment: String,
    pub now_text: String,
}

/// Whether the statements of a request are explained.
pub open spec fn explains(c: Commit) -> bool {
    (match c.workflow {
        Some(w) => w.explain,
        None => true,
    }) && (c.request.operation is ExecuteSelect || c.request.operation is ExecuteDml)
}

/// The approvers that a fresh request waits for.
pub open spec fn fresh_approvers(c: Commit) -> Seq<Seq<char>> {
    match c.workflow {
        Some(w) => if c.final_status == RequestStatus::Pending && w.steps@.len() > 0 {
            selector_texts(w.steps@[0].approvers@)
        } else {
            Seq::empty()
        },
        None => Seq::empty(),
    }
}

/// Whether `x` is the context record of a fresh request.
pub open spec fn context_of(x: RequestContextRecord, c: Commit) -> bool {
    &&& x.request_id == c.request.id
    &&& x.status@ == (if explains(c) {
        "collecting"@
    } else {
        "ready"@
    })
    &&& x.schema_snapshot_collected_at == c.assessment.schema_collected_at
    &&& x.tables_json == c.assessment.tables_json
    &&& x.sql_review_json == c.assessment.review_json
    &&& x.risk_json == c.assessment.risk_json
    &&& x.explain_json is None
    &&& x.created_at == c.now_text
    &&& x.updated_at == c.now_text
}

/// Whether `d` is what remains to be done for a committed request.
pub open spec fn completes(d: Completed, c: Commit) -> bool {
    &&& d.output.id == c.request.id
    &&& d.output.status == c.final_status
    &&& d.output.operation == c.request.operation
    &&& !d.output.is_existing
    &&& d.output.expires_at == c.request.expires_at
    &&& texts(d.output.approvers@) == (if c.bypass {
        Seq::empty()
    } else {
        fresh_approvers(c)
    })
    &&& d.notices@ == c.notices@
    &&& d.ddl_allowed == c.bypass
    &&& d.database == c.request.database
    &&& d.environment == c.request.environment
    &&& d.now_text == c.now_text
    &&& if c.bypass || c.request.no_result_store {
        d.explain is None && d.context is None
    } else {
        &&& d.explain is Some <==> explains(c)
        &&& d.explain is Some ==> texts(d.explain->0@) == (match c.assessment.parsed_stmt_texts {
            Some(v) => texts(v@),
            None => seq![c.request.detail@],
        })
        &&& d.context is Some
        &&& context_of(d.context->0, c)
    }
}

impl Commit {
    fn should_explain(&self) -> (r: bool)
        ensures
            r == explains(*self),
    {
        let wanted: bool = match &self.workflow {
            Some(w) => w.explain,
            None => true,
        };
        wanted && (self.request.operation == Operation::ExecuteSelect || self.request.operation
            == Operation::ExecuteDml)
    }

    fn complete(self) -> (r: Completed)
        ensures
            completes(r, self),
    {
        let explain: bool = self.should_explain();
        let follow: bool = !self.bypass && !self.request.no_result_store;
        let mut approvers: Vec<String> = Vec::new();
        assert(texts(approvers@) =~= Seq::empty());
        if !self.bypass && self.final_status == RequestStatus::Pending {
            match &self.workflow {
                Some(w) => {
                    if w.steps.len() > 0 {
                        approvers = group_texts(&w.steps[0].approvers);
                    }
                },
                None => {},
            }
        }
        let sql: Option<Vec<String>> = if follow && explain {
            match &self.assessment.parsed_stmt_texts {
                Some(v) => Some(copy_texts(v)),
                None => {
                    let mut v: Vec<String> = Vec::new();
                    v.push(self.request.detail.clone());
                    assert(texts(v@) =~= seq![self.request.detail@]);
                    Some(v)
                },
            }
        } else {
            None
        };
        let context = if follow {
            Some(
                RequestContextRecord {
                    request_id: self.request.id.clone(),
                    status: if explain {
                        "collecting".to_string()
                    } else {
                        "ready".to_string()
                    },
                    schema_snapshot_collected_at: self.assessment.schema_collected_at,
                    tables_json: self.assessment.tables_json,
                    sql_review_json: self.assessment.review_json,
                    risk_json: self.assessment.risk_json,
                    explain_json: None,
                    created_at: self.now_text.clone(),
                    updated_at: self.now_text.clone(),
                },
            )
        } else {
            None
        };
        Completed {
            output: CreateRequestOutput {
                id: self.request.id,
                status: self.final_status,
                operation: self.request.operation,
                is_existing: false,
                expires_at: self.request.expires_at,
                approvers,
            },
            notices: self.notices,
            ddl_allowed: self.bypass,
            explain: sql,
            context,
            database: self.request.database,
            environment: self.request.environment,
            now_text: self.now_text,
        }
    }

    /// Takes how the transaction ended.
    pub fn committed(self, outcome: Result<(), AppError>) -> (r: CommitStep)
        ensures
            match outcome {
                Ok(_) => r matches CommitStep::Done(d) && completes(d, self),
                Err(e) => if key_taken(e) {
                    match self.request.idempotency_key {
                        Some(k) => r matches CommitStep::Raced(s) && s.key == k && s.caller_id
                            == self.request.requester,
                        None => r matches CommitStep::Failed(f) && f.error@ == ErrorView::Conflict(
                            "idempotency_key"@,
                        ) && !f.audit_failure,
                    }
                } else {
                    r matches CommitStep::Failed(f) && f.error == e && f.audit_failure
                        == self.bypass
                },
            },
    {
        match outcome {
            Ok(_) => CommitStep::Done(self.complete()),
            Err(e) => {
                let taken: bool = match &e {
                    AppError::Conflict(m) => contains_text(m.as_str(), "idempotency_key")
                        || contains_text(m.as_str(), "UNIQUE constraint"),
                    _ => false,
                };
                if taken {
                    match self.request.idempotency_key {
                        Some(key) => CommitStep::Raced(
                            RaceLookup { caller_id: self.request.requester, key },
                        ),
                        None => CommitStep::Failed(
                            CommitFailure {
                                error: AppError::Conflict("idempotency_key".to_string()),
                                audit_failure: false,
                            },
                        ),
                    }
                } else {
                    CommitStep::Failed(CommitFailure { error: e, audit_failure: self.bypass })
                }
            },
        }
    }
}

impl RaceLookup {
    /// Takes the request that was written meanwhile.
    pub fn found(self, existing: Option<Request>) -> (r: Result<CreateRequestOutput, AppError>)
        ensures
            match existing {
                Some(req) => r matches Ok(o) && existing_output(o, req),
                None => r matches Err(e) && e@ == ErrorView::Conflict("idempotency_key"@),
            },
    {
        match existing {
            Some(req) => Ok(answer_existing(req)),
            None => Err(AppError::Conflict("idempotency_key".to_string())),
        }
    }
}

/// Whether `j` is the explain job of the statement `sql`.
pub open spec fn explain_job(j: DryRunJobRecord, d: Completed, id: String, sql: Seq<char>) -> bool {
    &&& j.id == id
    &&& j.request_id == d.output.id
    &&& j.database_name == d.database
    &&& j.environment == d.environment
    &&& j.sql_text@ == sql
    &&& j.status@ == "pending"@
    &&& j.claimed_by is None
    &&& j.claimed_at is None
    &&& j.claim_token is None
    &&& j.result_json is None
    &&& j.error_message is None
    &&& j.created_at == d.now_text
    &&& j.completed_at is None
}

impl Completed {
    /// The explain jobs, one for each statement, with fresh identifiers.
    pub fn jobs(&self, ids: &Vec<String>) -> (r: Vec<DryRunJobRecord>)
        requires
            self.explain is Some,
            ids@.len() == self.explain->0@.len(),
        ensures
            r@.len() == ids@.len(),
            forall|i: int|
                0 <= i < r@.len() ==> explain_job(
                    #[trigger] r@[i],
                    *self,
                    ids@[i],
                    self.explain->0@[i]@,
                ),
    {
        let mut out: Vec<DryRunJobRecord> = Vec::new();
        match &self.explain {
            Some(sql) => {
                let n: usize = ids.len();
                let mut i: usize = 0;
                while i < n
                    invariant
                        i <= n,
                        n == ids@.len(),
                        self.explain == Some(*sql),
                        n == sql@.len(),
                        out@.len() == i,
                        forall|k: int|
                            0 <= k < i ==> explain_job(#[trigger] out@[k], *self, ids@[k], sql@[k]@),
                    decreases n - i,
                {
                    out.push(
                        DryRunJobRecord {
                            id: ids[i].clone(),
                            request_id: self.output.id.clone(),
                            database_name: self.database.clone(),
                            environment: self.environment.clone(),
                            sql_text: sql[i].clone(),
                            status: "pending".to_string(),
                            claimed_by: None,
                            claimed_at: None,
                            claim_token: None,
                            result_json: None,
                            error_message: None,
                            created_at: self.now_text.clone(),
                            completed_at: None,
                        },
                    );
                    i += 1;
                }
            },
            None => {},
        }
        out
    }
}

/// A schema change gets past the classifier or the review only in a declared
/// emergency that names it, over an open channel.
pub proof fn bypass_needs_declared_emergency(
    input: CreateRequestInput,
    classified: Classified,
    resolved: Resolved,
    review: Review,
)
    requires
        admission_error(input) is None,
        classify_refusal(input, classified) is None,
        resolved_from(resolved, classified),
        resolved.classifier_bypassed || (review.blocked && !review_stops(input, resolved, review)),
    ensures
        input.emergency,
        input.allow_ddl,
        !input.channel.restricted(),
        all_eligible(resolved.statements),
{
}

/// Whoever gets past the rules with an emergency has given a reason, over an
/// open channel; and a repair is always an emergency.
pub proof fn emergency_is_justified(draft: Draft, errors: Seq<Option<String>>)
    requires
        rule_error(draft, errors) is None,
    ensures
        draft.submission.input.emergency ==> draft.submission.input.reason is Some
            && !draft.submission.input.channel.restricted(),
        draft.resolved.operation is MigrateRepair ==> draft.submission.input.emergency,
{
}

/// Every transaction that writes a request writes the record of its creation,
/// and the record of its dispatch where it dispatches it: the request and its
/// records are written together or not at all.
pub proof fn request_is_written_with_its_records(c: Commit, p: Persisting, events: Seq<
    TransitionEvent,
>)
    requires
        commits(c, p, events),
        events.len() >= 1,
    ensures
        c.records@.len() >= 1,
        c.records@[0].request_id == Some(events[0].request_id),
        events.len() == 2 ==> c.records@.len() >= 2 && c.records@[1].request_id == Some(
            events[1].request_id,
        ),
{
    assert(plainly_records(c.records@[0], events[0], p.request.created_at));
    if events.len() == 2 {
        assert(plainly_records(c.records@[1], events[1], p.request.created_at));
    }
}

/// The same key answers with the same request for as long as the statement is
/// the same: a request made with a key carries the fingerprint that a later
/// submission of its statement is compared with.
pub proof fn repeated_submission_matches(r: Request, t: Tracing, trace_json: String, detail: Seq<char>)
    requires
        request_made(r, t, trace_json),
        t.composing.draft.submission.input.idempotency_key is Some,
        detail == t.composing.draft.submission.input.detail@,
    ensures
        !fingerprint_differs(r, detail),
{
}

/// A request that never waits is never given an end, and a request with an end
/// is pending.
pub proof fn only_pending_requests_expire(c: Composing)
    ensures
        pending_ttl(c) is Some ==> c.status == RequestStatus::Pending,
{
}

/// The tables of a reviewed statement, as they are stored with the request, are
/// shown as the names that the statement gives them.
pub proof fn stored_tables_are_shown_as_written(
    a: AssessmentResult,
    review: Review,
    snapshot: Result<Option<SchemaSnapshotRecord>, AppError>,
    risk: RiskAssessment,
    entries: Seq<TableEntry>,
)
    requires
        assessed_as(a, review, snapshot, risk),
        shows_tables(entries, Some(a.tables_json->0@)),
    ensures
        table_names(entries) == join(table_ref_texts(review.tables@), ", "@),
{
    plain_names_are_shown_joined(
        entries,
        a.tables_json->0@,
        table_ref_texts(review.tables@),
    );
}

/// An ordinary submission that only reads asks for the permission to query, and
/// one that may change something for the permission to execute.
pub proof fn reading_asks_to_query_and_changing_to_execute(stage: Authorizing, asked: Permission)
    requires
        !stage.draft.submission.input.emergency,
        call_ensures(Authorizing::permission, (&stage,), asked),
    ensures
        asked == Permission::RequestQuery <==> stage.draft.resolved.operation
            == Operation::ExecuteSelect,
        asked == Permission::RequestExecute <==> {
            ||| stage.draft.resolved.operation == Operation::ExecuteDml
            ||| stage.draft.resolved.operation == Operation::MigrateUp
            ||| stage.draft.resolved.operation == Operation::MigrateDown
            ||| stage.draft.resolved.operation == Operation::MigrateStatus
            ||| stage.draft.resolved.operation == Operation::MigrateRepair
        },
{
}

/// An emergency asks for the permission to break glass, whatever it does.
pub proof fn emergency_asks_to_break_glass(stage: Authorizing, asked: Permission)
    requires
        stage.draft.submission.input.emergency,
        call_ensures(Authorizing::permission, (&stage,), asked),
    ensures
        asked == Permission::RequestBreakGlass,
{
}

/// Whoever is not authorized goes no further, and whoever wants to change the
/// schema in an emergency is asked twice.
pub proof fn unauthorized_callers_go_no_further(
    stage: Authorizing,
    reply: Result<(), AuthzError>,
    r: Result<AuthorizeStep, AppError>,
)
    requires
        call_ensures(Authorizing::authorized, (stage, reply), r),
    ensures
        r is Ok <==> reply is Ok,
        reply matches Err(e) ==> r matches Err(AppError::Forbidden(f)) && f@ == e@,
        r matches Ok(AuthorizeStep::Ddl(s)) ==> stage.draft.submission.input.allow_ddl && s.draft
            == stage.draft,
        r matches Ok(AuthorizeStep::Selectors(s)) ==> !stage.draft.submission.input.allow_ddl
            && s.draft == stage.draft,
{
}

/// The second authorization stops whoever does not hold it.
pub proof fn schema_changes_are_authorized(
    stage: DdlAuthorizing,
    reply: Result<(), AuthzError>,
    r: Result<SelectorCheck, AppError>,
)
    requires
        call_ensures(DdlAuthorizing::authorized, (stage, reply), r),
    ensures
        r is Ok <==> reply is Ok,
        r matches Ok(s) ==> s.draft == stage.draft,
{
}

/// A submission is admitted exactly if its statement has at most a hundred
/// thousand bytes, its reason at most 1024, and it asks for a schema change only
/// in an emergency and neither over MCP nor over Slack. It is the caller's.
pub proof fn admitted_submissions_are_small_and_declared(
    uc: CreateRequest,
    input: CreateRequestInput,
    user: AuthUser,
    auto_entry: Option<AutoApproveEntry>,
    r: Result<CreateStart, AppError>,
)
    requires
        call_ensures(CreateRequest::execute, (&uc, input, &user, auto_entry), r),
    ensures
        r is Ok <==> {
            &&& encode_utf8(input.detail@).len() <= 100_000
            &&& (input.reason matches Some(reason) ==> encode_utf8(reason@).len() <= 1024)
            &&& (input.allow_ddl ==> input.emergency && input.channel != RequestChannel::Mcp
                && input.channel != RequestChannel::Slack)
        },
        r is Err ==> r->Err_0 is Validation,
        r matches Ok(s) ==> {
            &&& s.submission.input == input
            &&& s.submission.caller_id == user.subject_id
            &&& s.submission.caller_type == user.subject_type
            &&& s.submission.auto_entry == auto_entry
            &&& s.submission.default_ttl_secs == uc.default_approval_ttl_secs
            &&& s.ddl_attempted == input.allow_ddl
        },
{
}

/// Migrations keep the operation that the caller names, and every other
/// statement is classified; it is read as MySQL where the schema names MySQL and
/// as PostgreSQL otherwise.
pub proof fn statements_are_classified_unless_migrations(
    stage: CreateStart,
    name: Option<String>,
    r: OperationStep,
)
    requires
        call_ensures(CreateStart::dialect, (stage, name), r),
    ensures
        r is Classify <==> stage.submission.input.operation == Operation::ExecuteSelect
            || stage.submission.input.operation == Operation::ExecuteDml,
        r matches OperationStep::Explicit(s) ==> {
            &&& s.resolved.operation == stage.submission.input.operation
            &&& !s.resolved.classifier_bypassed
            &&& s.submission == stage.submission
            &&& s.dialect == Dialect::MySql <==> (name is Some && name->0@ == "mysql"@)
        },
        r matches OperationStep::Classify(s) ==> {
            &&& s.submission == stage.submission
            &&& s.dialect == Dialect::MySql <==> (name is Some && name->0@ == "mysql"@)
        },
{
}

/// What the classifier accepts goes on as what it says.
pub proof fn classified_statements_go_on(
    stage: Classifying,
    reply: Classified,
    r: Result<Reviewing, Refusal>,
)
    requires
        reply.outcome is Ok,
        call_ensures(Classifying::classified, (stage, reply), r),
    ensures
        r matches Ok(s) && {
            &&& s.resolved.operation == reply.outcome->Ok_0.operation
            &&& s.resolved.classification == Some(reply.outcome->Ok_0)
            &&& s.resolved.statements == reply.statements
            &&& !s.resolved.classifier_bypassed
            &&& s.submission == stage.submission
            &&& s.dialect == stage.dialect
        },
{
}

/// What the classifier rejects gets past it only as a declared emergency schema
/// change of which every statement may be run under break-glass, and then counts
/// as a change; only the attempt of one that may not is a denied schema change.
pub proof fn rejected_statements_pass_only_by_bypass(
    stage: Classifying,
    reply: Classified,
    r: Result<Reviewing, Refusal>,
)
    requires
        reply.outcome is Err,
        call_ensures(Classifying::classified, (stage, reply), r),
    ensures
        r is Ok <==> {
            &&& reply.outcome->Err_0 is Rejected
            &&& stage.submission.input.emergency
            &&& stage.submission.input.allow_ddl
            &&& reply.statements is Some
            &&& reply.statements->0@.len() > 0
            &&& forall|i: int|
                0 <= i < reply.statements->0@.len() ==> (
                #[trigger] reply.statements->0@[i]).break_glass_eligible
        },
        r matches Ok(s) ==> {
            &&& s.resolved.operation == Operation::ExecuteDml
            &&& s.resolved.classifier_bypassed
            &&& s.submission == stage.submission
        },
        r matches Err(x) ==> {
            &&& x.audit is None
            &&& x.error is Validation
            &&& x.ddl_denied <==> (reply.outcome->Err_0 is Rejected
                && stage.submission.input.emergency && stage.submission.input.allow_ddl)
        },
{
    if reply.outcome->Err_0 is Rejected && all_eligible(reply.statements) {
        assert(reply.statements->0@.len() > 0);
    }
}

/// A refusal of the classifier is told in its own words, which an emergency
/// without the schema flag only adds a hint to.
pub proof fn rejections_are_told(
    stage: Classifying,
    reply: Classified,
    r: Result<Reviewing, Refusal>,
)
    requires
        call_ensures(Classifying::classified, (stage, reply), r),
        r is Err,
    ensures
        r->Err_0.error matches AppError::Validation(m) && match reply.outcome {
            Err(ClassifyError::Rejected { reason }) => {
                &&& m@.len() >= reason@.len()
                &&& m@.take(reason@.len() as int) == reason@
                &&& m@.len() > reason@.len() <==> (stage.submission.input.emergency
                    && !stage.submission.input.allow_ddl)
            },
            Err(ClassifyError::Empty) => m@ == "empty query"@,
            Ok(_) => false,
        },
{
    reveal_strlit(". Hint: add --allow-ddl to bypass in emergency mode");
    if let Err(ClassifyError::Rejected { reason }) = reply.outcome {
        let hint = ". Hint: add --allow-ddl to bypass in emergency mode"@;
        assert((reason@ + hint).take(reason@.len() as int) =~= reason@);
        assert(reason@.take(reason@.len() as int) =~= reason@);
    }
}

/// A review that does not block stops nothing, and a statement that could not be
/// parsed is not blocked.
pub proof fn unblocked_statements_go_on(stage: Reviewing, reply: Option<Review>, r: ReviewStep)
    requires
        call_ensures(Reviewing::reviewed, (stage, reply), r),
        reply matches Some(review) ==> !review.blocked,
    ensures
        reply is None ==> r is Unparsed && r->Unparsed_0.draft.submission == stage.submission
            && r->Unparsed_0.draft.resolved == stage.resolved
            && !r->Unparsed_0.draft.reviewer_bypassed
            && r->Unparsed_0.draft.assessment.risk_level is None,
        reply is Some ==> r is Assess && r->Assess_0.submission == stage.submission
            && r->Assess_0.resolved == stage.resolved && r->Assess_0.review == reply->0
            && !r->Assess_0.reviewer_bypassed,
{
}

/// A review that blocks is overridden exactly by a declared emergency schema
/// change of which every statement may be run under break-glass, unless some
/// blocking finding cannot be bypassed; the override is remembered.
pub proof fn blocked_statements_pass_only_by_bypass(
    stage: Reviewing,
    review: Review,
    r: ReviewStep,
)
    requires
        review.blocked,
        call_ensures(Reviewing::reviewed, (stage, Some(review)), r),
    ensures
        r is Assess <==> {
            &&& stage.submission.input.emergency
            &&& stage.submission.input.allow_ddl
            &&& stage.resolved.statements is Some
            &&& stage.resolved.statements->0@.len() > 0
            &&& forall|i: int|
                0 <= i < stage.resolved.statements->0@.len() ==> (
                #[trigger] stage.resolved.statements->0@[i]).break_glass_eligible
            &&& forall|i: int|
                0 <= i < review.findings@.len() && (#[trigger] review.findings@[i]).action
                    == RuleAction::Block ==> review.findings@[i].break_glass_bypassable
        },
        r is Assess || r is Blocked,
        r matches ReviewStep::Assess(s) ==> s.reviewer_bypassed && s.review == review,
        r matches ReviewStep::Blocked(s) ==> {
            &&& s.bypass_attempted <==> (stage.submission.input.emergency
                && stage.submission.input.allow_ddl)
            &&& s.caller_id == stage.submission.caller_id
            &&& s.database == stage.submission.input.database
            &&& s.environment == stage.submission.input.environment
        },
{
}

proof fn lemma_block_reasons(findings: Seq<Finding>, m: Seq<char>)
    ensures
        block_reasons(findings).contains(m) <==> exists|i: int|
            0 <= i < findings.len() && (#[trigger] findings[i]).action == RuleAction::Block
                && findings[i].message@ == m,
    decreases findings.len(),
{
    if findings.len() > 0 {
        let rest = findings.drop_last();
        lemma_block_reasons(rest, m);
        let n = findings.len() - 1;
        assert(findings[n] == findings.last());
        if block_reasons(rest).contains(m) {
            let i = choose|i: int|
                0 <= i < rest.len() && (#[trigger] rest[i]).action == RuleAction::Block
                    && rest[i].message@ == m;
            assert(findings[i] == rest[i]);
            let j = choose|j: int| 0 <= j < block_reasons(rest).len() && block_reasons(rest)[j] == m;
            assert(block_reasons(findings)[j] == m);
        }
        if findings.last().action == RuleAction::Block {
            let all = block_reasons(rest).push(findings.last().message@);
            assert(all[all.len() - 1] == findings.last().message@);
        }
        if exists|i: int|
            0 <= i < findings.len() && (#[trigger] findings[i]).action == RuleAction::Block
                && findings[i].message@ == m {
            let i = choose|i: int|
                0 <= i < findings.len() && (#[trigger] findings[i]).action == RuleAction::Block
                    && findings[i].message@ == m;
            if i < n {
                assert(rest[i] == findings[i]);
            }
        }
        if block_reasons(findings).contains(m) && !block_reasons(rest).contains(m) {
            let j = choose|j: int|
                0 <= j < block_reasons(findings).len() && block_reasons(findings)[j] == m;
            if j < block_reasons(rest).len() {
                assert(block_reasons(rest)[j] == m);
            }
            assert(findings[n].message@ == m);
        }
    }
}

/// Whoever is blocked is told the message of every blocking finding and of no
/// other, and the refusal is recorded against the caller; only an attempted
/// emergency schema change counts as denied.
pub proof fn blocked_callers_are_told_why(
    stage: Reviewing,
    review: Review,
    blocked: BlockedReview,
    now: Timestamp,
    r: Refusal,
    m: Seq<char>,
)
    requires
        call_ensures(Reviewing::reviewed, (stage, Some(review)), ReviewStep::Blocked(blocked)),
        call_ensures(BlockedReview::refuse, (blocked, now), r),
    ensures
        texts(blocked.reasons@).contains(m) <==> exists|i: int|
            0 <= i < review.findings@.len() && (#[trigger] review.findings@[i]).action
                == RuleAction::Block && review.findings@[i].message@ == m,
        r.error matches AppError::Validation(t) && {
            let list = join(texts(blocked.reasons@), "; "@);
            &&& t@.len() >= list.len()
            &&& t@.skip(t@.len() - list.len()) == list
        },
        r.audit is Some,
        r.audit->0.actor_id@ == stage.submission.caller_id@,
        r.audit->0.created_at == now,
        r.ddl_denied <==> (stage.submission.input.emergency && stage.submission.input.allow_ddl),
{
    lemma_block_reasons(review.findings@, m);
    let list = join(texts(blocked.reasons@), "; "@);
    assert(blocked.refusal_text().skip(blocked.refusal_text().len() - list.len()) =~= list);
}

/// The risk is evaluated from what was submitted: a read-only pass is possible
/// only for a query and a safe schema change only for one statement without
/// findings, each only where the rule that applies allows it.
pub proof fn risk_is_evaluated_from_the_submission(
    stage: Assessing,
    snapshot: Result<Option<SchemaSnapshotRecord>, AppError>,
    tables: Result<Option<String>, AppError>,
    r: RiskInput,
)
    requires
        call_ensures(Assessing::risk_input, (&stage, &snapshot, &tables), r),
    ensures
        r.operation == stage.resolved.operation,
        r.statement_count == stage.review.statements@.len(),
        r.has_dml <==> stage.resolved.operation == Operation::ExecuteDml,
        r.allow_read_only <==> stage.resolved.operation == Operation::ExecuteSelect && (
        stage.submission.auto_entry matches Some(e) ==> e.allow_read_only),
        r.safe_ddl <==> {
            &&& (stage.submission.auto_entry matches Some(e) ==> e.allow_safe_ddl)
            &&& stage.review.statements@.len() == 1
            &&& stage.review.statements@[0].safe_ddl
            &&& stage.review.findings@.len() == 0
        },
        stage.submission.auto_entry is None ==> r.max_estimated_rows == 1000,
        stage.submission.auto_entry matches Some(e) ==> (e.max_estimated_rows <= i64::MAX
            ==> r.max_estimated_rows == e.max_estimated_rows),
{
}

proof fn lemma_selector_error(selectors: Seq<String>, errors: Seq<Option<String>>, i: int)
    requires
        errors.len() == selectors.len(),
        0 <= i <= selectors.len(),
    ensures
        selector_error(selectors, errors, i) is None <==> forall|k: int|
            i <= k < errors.len() ==> (#[trigger] errors[k]) is None,
        selector_error(selectors, errors, i) is Some ==> selector_error(
            selectors,
            errors,
            i,
        )->0 is Validation,
    decreases selectors.len() - i,
{
    if i < selectors.len() {
        lemma_selector_error(selectors, errors, i + 1);
    }
}

/// A submission keeps the rules exactly if every selector it shares its result
/// with can be read, an emergency has a reason and comes neither over MCP nor
/// over Slack, and a repair is an emergency.
pub proof fn accepted_submissions_keep_the_rules(
    stage: SelectorCheck,
    errors: Vec<Option<String>>,
    r: Result<RegistryCheck, AppError>,
)
    requires
        errors@.len() == stage.draft.submission.input.share_with@.len(),
        call_ensures(SelectorCheck::checked, (stage, &errors), r),
    ensures
        r is Ok <==> {
            &&& forall|k: int| 0 <= k < errors@.len() ==> (#[trigger] errors@[k]) is None
            &&& stage.draft.submission.input.emergency ==> {
                &&& stage.draft.submission.input.reason is Some
                &&& stage.draft.submission.input.channel != RequestChannel::Mcp
                &&& stage.draft.submission.input.channel != RequestChannel::Slack
            }
            &&& stage.draft.resolved.operation == Operation::MigrateRepair
                ==> stage.draft.submission.input.emergency
        },
        r matches Ok(s) ==> s.draft == stage.draft,
        r matches Err(e) ==> e is Validation,
{
    lemma_selector_error(stage.draft.submission.input.share_with@, errors@, 0);
}

/// Only for a registered database does a submission go on, and one with a key
/// is looked up first.
pub proof fn unregistered_databases_are_refused(stage: RegistryCheck, known: bool, r: RegistryStep)
    requires
        call_ensures(RegistryCheck::registered, (stage, known), r),
    ensures
        r is Unregistered <==> !known,
        r is Lookup <==> known && stage.draft.submission.input.idempotency_key is Some,
        r matches RegistryStep::Lookup(s) ==> s.draft == stage.draft,
        r matches RegistryStep::Fresh(s) ==> s.draft == stage.draft,
        r matches RegistryStep::Unregistered(s) ==> s.database
            == stage.draft.submission.input.database && s.environment
            == stage.draft.submission.input.environment,
{
}

/// A key that was used before gives back the request made with it, unless that
/// was made from a statement with another digest; an unused key makes a new one.
pub proof fn used_keys_give_back_the_request(
    stage: IdempotencyLookup,
    existing: Option<Request>,
    r: Result<IdempotencyStep, AppError>,
)
    requires
        call_ensures(IdempotencyLookup::found, (stage, existing), r),
    ensures
        existing is None ==> r is Ok && r->Ok_0 is Fresh && r->Ok_0->Fresh_0.draft == stage.draft,
        existing matches Some(req) ==> {
            let same = req.idempotency_fingerprint matches Some(f) ==> f@ == hex_text(
                sha256(encode_utf8(stage.draft.submission.input.detail@)),
            );
            &&& same ==> r is Ok && r->Ok_0 is Existing && {
                let o = r->Ok_0->Existing_0;
                &&& o.id == req.id
                &&& o.status == req.status
                &&& o.operation == req.operation
                &&& o.expires_at == req.expires_at
                &&& o.is_existing
                &&& req.status != RequestStatus::Pending ==> o.approvers@.len() == 0
            }
            &&& !same ==> r is Err && r->Err_0 is Conflict
        },
{
    if let Ok(IdempotencyStep::Existing(o)) = r {
        assert(texts(o.approvers@).len() == o.approvers@.len());
    }
}

/// Whoever loses a race for a key gets the request that won it.
pub proof fn lost_races_give_back_the_request(
    stage: RaceLookup,
    existing: Option<Request>,
    r: Result<CreateRequestOutput, AppError>,
)
    requires
        call_ensures(RaceLookup::found, (stage, existing), r),
    ensures
        existing matches Some(req) ==> r is Ok && r->Ok_0.id == req.id && r->Ok_0.status
            == req.status && r->Ok_0.operation == req.operation && r->Ok_0.is_existing,
        existing is None ==> r is Err && r->Err_0 is Conflict,
{
}

/// Without a workflow only an emergency is created, and it waits for nobody;
/// with one the workflow decides.
pub proof fn workflows_decide_unless_in_an_emergency(
    stage: WorkflowLookup,
    found: Option<Workflow>,
    r: Result<DecisionStep, AppError>,
)
    requires
        call_ensures(WorkflowLookup::workflow, (stage, found), r),
    ensures
        r is Err <==> found is None && !stage.draft.submission.input.emergency,
        r is Err ==> r->Err_0 is Validation,
        found matches Some(wf) ==> r is Ok && r->Ok_0 is Evaluate && r->Ok_0->Evaluate_0.workflow
            == wf && r->Ok_0->Evaluate_0.draft == stage.draft,
        found is None && r is Ok ==> r->Ok_0 is Decided && !r->Ok_0->Decided_0.needs_approval
            && r->Ok_0->Decided_0.workflow is None && r->Ok_0->Decided_0.draft == stage.draft,
{
}

/// What the workflow decides is what the request is created by.
pub proof fn decisions_are_kept(
    stage: Deciding,
    decision: ApprovalDecision,
    needs_approval: bool,
    r: StatusLookup,
)
    requires
        call_ensures(Deciding::evaluated, (stage, decision, needs_approval), r),
    ensures
        r.decision == decision,
        r.needs_approval == needs_approval,
        r.workflow == Some(stage.workflow),
        r.draft == stage.draft,
{
}

/// A workflow that requires a reason gets one, and the initial status is the one
/// that was given.
pub proof fn required_reasons_are_given(
    stage: StatusLookup,
    status: RequestStatus,
    workflow_json: Result<Option<String>, String>,
    r: Result<Composing, AppError>,
)
    requires
        call_ensures(StatusLookup::status, (stage, status, workflow_json), r),
    ensures
        r is Ok <==> {
            &&& (stage.workflow matches Some(wf) ==> wf.require_reason
                ==> stage.draft.submission.input.reason is Some)
            &&& workflow_json is Ok
        },
        r matches Ok(c) ==> {
            &&& c.status == status
            &&& c.draft == stage.draft
            &&& c.workflow == stage.workflow
            &&& c.needs_approval == stage.needs_approval
            &&& c.decision == stage.decision
            &&& workflow_json == Ok::<Option<String>, String>(c.workflow_json)
        },
{
}

/// A request that does not wait never ends by itself. One that waits ends when
/// the time of its workflow is over, or else the default time, or else never.
pub proof fn waiting_requests_end_in_time(stage: Composing, now: Timestamp, id: String, r: Tracing)
    requires
        now.valid(),
        pending_ttl(stage) matches Some(s) ==> now.shiftable((s as i64) as int),
        call_ensures(Composing::compose, (stage, now, id), r),
    ensures
        r.id == id,
        r.now == now,
        r.composing == stage,
        stage.status != RequestStatus::Pending ==> r.expires_at is None,
        stage.status == RequestStatus::Pending ==> {
            let own = match stage.workflow {
                Some(wf) => wf.pending_ttl_secs,
                None => None,
            };
            let limit = if own is Some {
                own
            } else {
                stage.draft.submission.default_ttl_secs
            };
            &&& limit is None ==> r.expires_at is None
            &&& limit matches Some(secs) ==> secs <= i64::MAX ==> r.expires_at is Some
                && r.expires_at->0.instant() == now.instant() + secs * 1_000_000_000
        },
{
}

/// The trace tells the outcome that the request meets: it passes exactly if it
/// is an emergency or asks for no approval, and the reason given fits.
pub proof fn traces_tell_the_decision(stage: Composing, now: Timestamp, id: String, r: Tracing)
    requires
        now.valid(),
        pending_ttl(stage) matches Some(s) ==> now.shiftable((s as i64) as int),
        call_ensures(Composing::compose, (stage, now, id), r),
    ensures
        ({
            let input = stage.draft.submission.input;
            let t = r.trace;
            &&& t.decision.outcome == Outcome::NeedsApproval <==> !input.emergency
                && stage.needs_approval
            &&& t.decision.outcome == Outcome::AutoApproved || t.decision.outcome
                == Outcome::NeedsApproval
            &&& input.emergency ==> t.decision.reasons@ == seq![DecisionReason::BreakGlass]
            &&& !input.emergency ==> !t.decision.reasons@.contains(DecisionReason::BreakGlass)
            &&& !input.emergency && stage.decision == (ApprovalDecision::AutoApproved {
                reason: AutoApproveReason::RiskBased,
            }) ==> t.decision.reasons@ == seq![DecisionReason::RiskBelowThreshold]
            &&& !input.emergency && stage.decision == (ApprovalDecision::AutoApproved {
                reason: AutoApproveReason::EmptySteps,
            }) ==> t.decision.reasons@ == seq![DecisionReason::EmptySteps]
            &&& !input.emergency && stage.decision == ApprovalDecision::NeedsApproval ==> {
                &&& t.decision.reasons@.len() == 1
                &&& stage.draft.submission.auto_entry is None <==> t.decision.reasons@[0]
                    == DecisionReason::NoAutoApproveRule
                &&& t.decision.reasons@[0] == DecisionReason::RiskAboveThreshold
                    ==> stage.draft.assessment.risk_level is Some
                &&& t.decision.reasons@[0] == DecisionReason::RiskUnavailable
                    ==> stage.draft.assessment.risk_level is None
                &&& t.decision.reasons@[0] == DecisionReason::AutoApproveDisabled <==> (
                stage.draft.submission.auto_entry is Some
                    && stage.draft.submission.auto_entry->0.max_risk_level is None)
            }
            &&& t.sql_review.findings_count == stage.draft.assessment.findings_count
            &&& t.sql_review.parse_failed <==> stage.draft.assessment.parsed_stmt_texts is None
            &&& stage.draft.assessment.risk_level matches Some(l) ==> t.risk.level == l
            &&& stage.draft.assessment.risk_level is None ==> t.risk.level
                == RiskLevel::Unavailable
            &&& stage.workflow is Some <==> t.workflow.matched is Some
            &&& stage.workflow matches Some(wf) ==> t.workflow.matched->0.id == wf.id
                && t.workflow.matched->0.step_count == wf.steps@.len()
        }),
{
    let reasons = r.trace.decision.reasons@;
    if !stage.draft.submission.input.emergency && reasons.contains(DecisionReason::BreakGlass) {
        let i = choose|i: int| 0 <= i < reasons.len() && reasons[i] == DecisionReason::BreakGlass;
        assert(reasons[i] == DecisionReason::BreakGlass);
    }
}

/// The request that a persisting stage carries.
pub open spec fn persisted(step: PersistStep) -> Persisting {
    match step {
        PersistStep::Pending(s) => s.persisting,
        PersistStep::Dispatch(s) => s.persisting,
        PersistStep::Bypass(s) => s.persisting,
    }
}

/// The stored request is what was submitted, by whom it was submitted: nothing
/// is changed on the way, and with a key it carries the digest of its statement.
pub proof fn requests_hold_what_was_submitted(
    stage: Tracing,
    trace_json: String,
    r: Result<PersistStep, AppError>,
)
    requires
        call_ensures(
            Tracing::traced,
            (stage, Ok::<String, String>(trace_json)),
            r,
        ),
    ensures
        r is Ok,
        ({
            let req = persisted(r->Ok_0).request;
            let input = stage.composing.draft.submission.input;
            &&& req.id == stage.id
            &&& req.requester == stage.composing.draft.submission.caller_id
            &&& req.database == input.database
            &&& req.environment == input.environment
            &&& req.detail == input.detail
            &&& req.reason == input.reason
            &&& req.emergency == input.emergency
            &&& req.share_with == input.share_with
            &&& req.no_result_store == input.no_result_store
            &&& req.metadata_json == input.metadata_json
            &&& req.operation == stage.composing.draft.resolved.operation
            &&& req.status == stage.composing.status
            &&& req.created_at == stage.now
            &&& req.updated_at == stage.now
            &&& req.resolved_at is None
            &&& req.cancelled_by is None
            &&& req.cancel_reason is None
            &&& req.expires_at == stage.expires_at
            &&& req.workflow_snapshot_json == stage.composing.workflow_json
            &&& req.decision_trace_json == Some(trace_json)
            &&& req.idempotency_key == input.idempotency_key
            &&& req.idempotency_fingerprint is Some <==> input.idempotency_key is Some
            &&& req.idempotency_fingerprint matches Some(f) ==> f@ == hex_text(
                sha256(encode_utf8(input.detail@)),
            )
        }),
{
}

/// A request is dispatched at once exactly if it was approved by itself or
/// breaks glass, and past a refusal exactly if the classifier or the review was
/// overridden.
pub proof fn passing_requests_are_dispatched_at_once(
    stage: Tracing,
    trace_json: String,
    r: Result<PersistStep, AppError>,
)
    requires
        call_ensures(
            Tracing::traced,
            (stage, Ok::<String, String>(trace_json)),
            r,
        ),
    ensures
        r is Ok,
        r->Ok_0 is Pending <==> stage.composing.status != RequestStatus::AutoApproved
            && stage.composing.status != RequestStatus::BreakGlass,
        r->Ok_0 is Bypass <==> (stage.composing.status == RequestStatus::AutoApproved
            || stage.composing.status == RequestStatus::BreakGlass) && (
        stage.composing.draft.resolved.classifier_bypassed
            || stage.composing.draft.reviewer_bypassed),
{
}

/// The plan of a request lists its statements where the classifier could parse
/// them, and is read back as that list; otherwise there is none.
pub proof fn plans_list_the_statements(
    stage: Tracing,
    trace_json: String,
    r: Result<PersistStep, AppError>,
)
    requires
        call_ensures(
            Tracing::traced,
            (stage, Ok::<String, String>(trace_json)),
            r,
        ),
    ensures
        r is Ok,
        ({
            let plan = persisted(r->Ok_0).request.execution_plan_json;
            match stage.composing.draft.resolved.classification {
                None => plan is None,
                Some(c) => {
                    &&& plan is None <==> c.dml_reason == Some(DmlReason::ParseFailure)
                    &&& plan matches Some(text) ==> text@ == rendered_json(
                        JsonTree::Array(text_trees(texts(c.statements@))),
                    )
                },
            }
        }),
{
}

/// A request that waits is written without being dispatched, with the record and
/// the notice of its creation alone.
pub proof fn waiting_requests_are_not_dispatched(
    stage: PersistPending,
    created: TransitionEvent,
    r: Commit,
)
    requires
        call_ensures(PersistPending::created, (stage, created), r),
    ensures
        !r.dispatch,
        !r.bypass,
        r.request == stage.persisting.request,
        r.final_status == stage.persisting.request.status,
        r.records@.len() == 1,
        r.notices@.len() == 1,
        r.records@[0].created_at == stage.persisting.request.created_at,
        r.records@[0].actor_id@ == created.actor_id@,
{
    assert(plainly_records(r.records@[0], created, stage.persisting.request.created_at)) by {
        assert(seq![created][0] == created);
    }
}

/// A request that passes is written and dispatched in one, with a record and a
/// notice of each; its status is what the dispatch leads to.
pub proof fn passing_requests_are_dispatched_when_written(
    stage: PersistDispatch,
    created: TransitionEvent,
    reply: TransitionReply,
    r: Result<Commit, AppError>,
)
    requires
        call_ensures(PersistDispatch::dispatched, (stage, created, reply), r),
    ensures
        r is Ok <==> reply is Ok,
        r matches Ok(c) ==> {
            &&& c.dispatch
            &&& !c.bypass
            &&& c.request == stage.persisting.request
            &&& c.final_status == reply->Ok_0.new_status
            &&& c.records@.len() == 2
            &&& c.notices@.len() == 2
        },
{
}

/// A request that passes a refusal leaves a third record, of the override
/// itself, at the time and by the requester.
pub proof fn overrides_leave_a_record(
    stage: PersistBypass,
    created: TransitionEvent,
    reply: TransitionReply,
    at: Timestamp,
    sql_redacted: String,
    r: Result<Commit, AppError>,
)
    requires
        call_ensures(
            PersistBypass::dispatched,
            (stage, created, reply, at, sql_redacted),
            r,
        ),
    ensures
        r is Ok <==> reply is Ok,
        r matches Ok(c) ==> {
            &&& c.dispatch
            &&& c.bypass
            &&& c.request == stage.persisting.request
            &&& c.final_status == RequestStatus::Dispatched
            &&& c.records@.len() == 3
            &&& c.records@[2].event_type@ == "ddl.break_glass_bypass"@
            &&& c.records@[2].actor_id@ == stage.persisting.request.requester@
            &&& c.records@[2].resource_id == Some(stage.persisting.request.id)
            &&& c.records@[2].created_at == at
        },
{
}

/// What is answered once a request is written: the request, with the approvers
/// of its first step where it waits for them and none otherwise.
pub proof fn answers_name_who_is_waited_for(c: Commit, r: CommitStep)
    requires
        call_ensures(Commit::committed, (c, Ok::<(), AppError>(())), r),
    ensures
        r matches CommitStep::Done(d) && {
            &&& d.output.id == c.request.id
            &&& d.output.status == c.final_status
            &&& d.output.operation == c.request.operation
            &&& d.output.expires_at == c.request.expires_at
            &&& !d.output.is_existing
            &&& d.notices@ == c.notices@
            &&& d.ddl_allowed <==> c.bypass
            &&& (c.bypass || c.final_status != RequestStatus::Pending || c.workflow is None)
                ==> d.output.approvers@.len() == 0
            &&& (!c.bypass && c.final_status == RequestStatus::Pending && c.workflow is Some
                && c.workflow->0.steps@.len() > 0) ==> {
                &&& d.output.approvers@.len() == c.workflow->0.steps@[0].approvers@.len()
                &&& forall|k: int|
                    0 <= k < d.output.approvers@.len() ==> (#[trigger] d.output.approvers@[k])@
                        == c.workflow->0.steps@[0].approvers@[k].selector.text()
            }
        },
{
    if let CommitStep::Done(d) = r {
        assert(texts(d.output.approvers@).len() == d.output.approvers@.len());
        assert forall|k: int| 0 <= k < d.output.approvers@.len() implies (
        #[trigger] d.output.approvers@[k])@ == texts(d.output.approvers@)[k] by {}
    }
}

/// The statements of a written request are explained exactly if it runs
/// statements, its workflow wants it, its results are stored and nothing was
/// overridden; until then its context is being collected.
pub proof fn statements_are_explained_where_wanted(c: Commit, r: CommitStep)
    requires
        call_ensures(Commit::committed, (c, Ok::<(), AppError>(())), r),
    ensures
        r matches CommitStep::Done(d) && {
            &&& d.explain is Some <==> {
                &&& !c.bypass
                &&& !c.request.no_result_store
                &&& (c.workflow matches Some(w) ==> w.explain)
                &&& (c.request.operation == Operation::ExecuteSelect || c.request.operation
                    == Operation::ExecuteDml)
            }
            &&& d.explain is Some && c.assessment.parsed_stmt_texts is None
                ==> d.explain->0@.len() == 1 && d.explain->0@[0]@ == c.request.detail@
            &&& d.context is Some <==> !c.bypass && !c.request.no_result_store
            &&& d.context matches Some(x) ==> {
                &&& x.request_id == c.request.id
                &&& d.explain is Some ==> x.status@ == "collecting"@
                &&& d.explain is None ==> x.status@ == "ready"@
                &&& x.tables_json == c.assessment.tables_json
                &&& x.risk_json == c.assessment.risk_json
                &&& x.sql_review_json == c.assessment.review_json
            }
        },
{
    if let CommitStep::Done(d) = r {
        if d.explain is Some && c.assessment.parsed_stmt_texts is None {
            assert(texts(d.explain->0@).len() == 1);
            assert(texts(d.explain->0@)[0] == c.request.detail@);
        }
    }
}

/// A failed transaction is looked into only where it tells that the key of the
/// request is taken; any other failure is the answer, and counts against the
/// audit where something was overridden.
pub proof fn failed_writes_are_told(c: Commit, e: AppError, r: CommitStep)
    requires
        call_ensures(Commit::committed, (c, Err::<(), AppError>(e)), r),
    ensures
        !(r is Done),
        !(e is Conflict) ==> r is Failed && r->Failed_0.error == e && (r->Failed_0.audit_failure
            <==> c.bypass),
        r is Raced ==> e is Conflict && c.request.idempotency_key is Some && r->Raced_0.key
            == c.request.idempotency_key->0 && r->Raced_0.caller_id == c.request.requester,
        e matches AppError::Conflict(m) ==> c.request.idempotency_key is Some && (contains_seq(
            m@,
            "idempotency_key"@,
        ) || contains_seq(m@, "UNIQUE constraint"@)) ==> r is Raced,
        e matches AppError::Conflict(m) ==> !contains_seq(m@, "idempotency_key"@) && !contains_seq(
            m@,
            "UNIQUE constraint"@,
        ) ==> r is Failed && r->Failed_0.error == e,
{
}

/// Every statement to explain becomes one open job of the request.
pub proof fn every_statement_becomes_a_job(
    d: Completed,
    ids: Vec<String>,
    r: Vec<DryRunJobRecord>,
    k: int,
)
    requires
        d.explain is Some,
        ids@.len() == d.explain->0@.len(),
        call_ensures(Completed::jobs, (&d, &ids), r),
        0 <= k < ids@.len(),
    ensures
        r@.len() == d.explain->0@.len(),
        r@[k].id == ids@[k],
        r@[k].request_id == d.output.id,
        r@[k].sql_text@ == d.explain->0@[k]@,
        r@[k].database_name == d.database,
        r@[k].environment == d.environment,
        r@[k].status@ == "pending"@,
        r@[k].claimed_by is None,
        r@[k].result_json is None,
{
    assert(explain_job(r@[k], d, ids@[k], d.explain->0@[k]@));
}

/// Emergencies and schema changes come neither from an assistant nor from a chat.
pub proof fn assistants_and_chats_are_restricted(channel: RequestChannel, r: bool)
    requires
        call_ensures(RequestChannel::is_restricted, (&channel,), r),
    ensures
        r <==> channel == RequestChannel::Mcp || channel == RequestChannel::Slack,
{
}

/// Why a rule is not overridden is told as a mistake of the caller.
pub proof fn denials_are_told(denial: BreakGlassDenial, r: AppError)
    requires
        call_ensures(BreakGlassDenial::into_app_error, (denial,), r),
    ensures
        r is Validation,
        denial is RequiresEmergency ==> r->Validation_0@ == "--allow-ddl requires --emergency"@,
        denial is RestrictedChannel ==> r->Validation_0@
            == "--allow-ddl is not allowed via MCP/Slack"@,
        denial matches BreakGlassDenial::MissingAllowDdl { original_reason } ==> r->Validation_0@
            == original_reason@ + ". Hint: add --allow-ddl to bypass in emergency mode"@,
        denial matches BreakGlassDenial::NonBypassableStatement { reason } ==> r->Validation_0@
            == reason@,
        denial matches BreakGlassDenial::NonBypassableReviewRule { reasons } ==> r->Validation_0@
            == "SQL blocked by review (not bypassable): "@ + join(texts(reasons@), "; "@),
{
    assert(r@ is Validation);
}

/// Statements pass in an emergency only if there are some and every one may.
pub proof fn one_ineligible_statement_stops_all(statements: Option<Vec<ParsedStatement>>, r: bool)
    requires
        call_ensures(every_eligible, (&statements,), r),
    ensures
        r <==> statements is Some && statements->0@.len() > 0 && forall|k: int|
            0 <= k < statements->0@.len() ==> (
            #[trigger] statements->0@[k]).break_glass_eligible,
{
}

/// A block that may not be bypassed stands even in an emergency; a warning
/// blocks nothing.
pub proof fn hard_blocks_are_blocks(findings: Vec<Finding>, r: bool)
    requires
        call_ensures(has_hard_block, (&findings,), r),
    ensures
        r <==> exists|i: int|
            0 <= i < findings@.len() && (#[trigger] findings@[i]).action == RuleAction::Block
                && !findings@[i].break_glass_bypassable,
{
}

/// The reasons of a block are the messages of the findings that block, and of
/// no others.
pub proof fn blocking_findings_give_the_reasons(
    findings: Vec<Finding>,
    r: Vec<String>,
    m: Seq<char>,
)
    requires
        call_ensures(collect_block_reasons, (&findings,), r),
    ensures
        texts(r@).contains(m) <==> exists|i: int|
            0 <= i < findings@.len() && (#[trigger] findings@[i]).action == RuleAction::Block
                && findings@[i].message@ == m,
{
    lemma_reasons(findings@, m);
}

proof fn lemma_reasons(findings: Seq<Finding>, m: Seq<char>)
    ensures
        block_reasons(findings).contains(m) <==> exists|i: int|
            0 <= i < findings.len() && (#[trigger] findings[i]).action == RuleAction::Block
                && findings[i].message@ == m,
    decreases findings.len(),
{
    if findings.len() > 0 {
        let before = findings.drop_last();
        let rest = block_reasons(before);
        let all = block_reasons(findings);
        lemma_reasons(before, m);
        if all.contains(m) {
            let k = choose|k: int| 0 <= k < all.len() && all[k] == m;
            if k < rest.len() {
                assert(rest[k] == m);
                let i = choose|i: int|
                    0 <= i < before.len() && (#[trigger] before[i]).action == RuleAction::Block
                        && before[i].message@ == m;
                assert(findings[i] == before[i]);
            } else {
                assert(findings[findings.len() - 1].message@ == m);
            }
        }
        if exists|i: int|
            0 <= i < findings.len() && (#[trigger] findings[i]).action == RuleAction::Block
                && findings[i].message@ == m {
            let i = choose|i: int|
                0 <= i < findings.len() && (#[trigger] findings[i]).action == RuleAction::Block
                    && findings[i].message@ == m;
            if i < before.len() {
                assert(before[i] == findings[i]);
                let k = choose|k: int| 0 <= k < rest.len() && rest[k] == m;
                assert(all[k] == m);
            } else {
                assert(all[all.len() - 1] == m);
            }
        }
    }
}

/// Statements and tables are listed in their order: a statement by its text, a
/// table by its name, with its schema where it has one.
pub proof fn statements_and_tables_are_listed(
    statements: Vec<ParsedStatement>,
    s: Vec<String>,
    tables: Vec<TableRef>,
    t: Vec<String>,
    i: int,
    j: int,
)
    requires
        call_ensures(collect_statement_texts, (&statements,), s),
        call_ensures(collect_table_names, (&tables,), t),
        0 <= i < statements@.len(),
        0 <= j < tables@.len(),
    ensures
        s@.len() == statements@.len(),
        s@[i]@ == statements@[i].text@,
        t@.len() == tables@.len(),
        tables@[j].schema is None ==> t@[j]@ == tables@[j].name@,
        tables@[j].schema matches Some(x) ==> t@[j]@ == x@ + "."@ + tables@[j].name@,
{
    assert(texts(s@).len() == s@.len());
    assert(texts(t@).len() == t@.len());
    assert(texts(s@)[i] == s@[i]@);
    assert(texts(t@)[j] == t@[j]@);
}

/// What is kept of the review, the risk and the schema is what they said.
pub proof fn assessments_are_kept(
    stage: Assessing,
    snapshot: Result<Option<SchemaSnapshotRecord>, AppError>,
    risk: RiskAssessment,
    r: Authorizing,
)
    requires
        call_ensures(Assessing::assessed, (stage, &snapshot, risk), r),
    ensures
        r.draft.submission == stage.submission,
        r.draft.resolved == stage.resolved,
        r.draft.reviewer_bypassed == stage.reviewer_bypassed,
        r.draft.assessment.risk_level == Some(risk.level),
        r.draft.assessment.risk_factors@ == risk.factors@,
        r.draft.assessment.findings_count == stage.review.findings@.len(),
        snapshot is Err || snapshot->Ok_0 is None ==> r.draft.assessment.schema_status
            == SchemaStatus::NotSynced && r.draft.assessment.schema_collected_at is None,
        snapshot matches Ok(Some(s)) ==> r.draft.assessment.schema_collected_at == Some(
            s.collected_at,
        ) && (r.draft.assessment.schema_status == SchemaStatus::Ready <==> s.status@ == "ready"@),
        r.draft.assessment.parsed_stmt_texts matches Some(v) && v@.len()
            == stage.review.statements@.len(),
{
    let v = r.draft.assessment.parsed_stmt_texts->0;
    assert(texts(v@).len() == v@.len());
}

/// The stored review says whether it blocked and lists each finding by its rule
/// and message; the stored risk says its level and factors.
pub proof fn assessments_are_stored(
    stage: Assessing,
    snapshot: Result<Option<SchemaSnapshotRecord>, AppError>,
    risk: RiskAssessment,
    r: Authorizing,
    k: int,
)
    requires
        call_ensures(Assessing::assessed, (stage, &snapshot, risk), r),
        0 <= k < stage.review.findings@.len(),
    ensures
        exists|d: JsonTree|
            r.draft.assessment.review_json->0@ == #[trigger] rendered_json(d) && d.at("blocked"@)
                == JsonTree::Bool(stage.review.blocked) && d.at("findings"@).as_array() is Some
                && d.at("findings"@).as_array()->0.len() == stage.review.findings@.len() && d.at(
                "findings"@,
            ).as_array()->0[k].at("rule"@) == JsonTree::Text(stage.review.findings@[k].rule@)
                && d.at("findings"@).as_array()->0[k].at("message"@) == JsonTree::Text(
                stage.review.findings@[k].message@,
            ),
        exists|d: JsonTree|
            r.draft.assessment.risk_json->0@ == #[trigger] rendered_json(d) && d.at("level"@)
                == JsonTree::Text(risk.level.text()) && d.at("factors"@) == JsonTree::Array(
                text_trees(texts(risk.factors@)),
            ),
{
    reveal_strlit("findings");
    reveal_strlit("blocked");
    reveal_strlit("rule");
    reveal_strlit("message");
    reveal_strlit("level");
    reveal_strlit("factors");
    assert("findings"@.len() != "blocked"@.len());
    assert("rule"@.len() != "message"@.len());
    assert("level"@.len() != "factors"@.len());
    let d = review_tree(stage.review);
    assert(d.at("findings"@).as_array()->0[k] == finding_trees(stage.review.findings@)[k]);
    assert(r.draft.assessment.review_json->0@ == rendered_json(d));
    assert(r.draft.assessment.risk_json->0@ == rendered_json(risk_tree(risk)));
}

/// A caller who names an unregistered pair is told so, and helped as far as the
/// registered ones are known.
pub proof fn unregistered_callers_are_helped(
    stage: Unregistered,
    listing: Result<Vec<(String, String)>, AppError>,
    r: AppError,
)
    requires
        call_ensures(Unregistered::explain, (stage, listing), r),
    ensures
        r is Validation,
        ({
            let base = "database '"@ + stage.database@ + "' not registered in environment '"@
                + stage.environment@ + "'"@;
            &&& listing is Err ==> r->Validation_0@ == base
            &&& listing is Ok && (forall|i: int|
                0 <= i < listing->Ok_0@.len() ==> (#[trigger] listing->Ok_0@[i]).0@
                    != stage.database@) ==> r->Validation_0@ == base
                + ". Register it with: dbward database register"@
        }),
{
    assert(r@ is Validation);
    if let Ok(pairs) = listing {
        if forall|i: int|
            0 <= i < pairs@.len() ==> (#[trigger] pairs@[i]).0@ != stage.database@ {
            lemma_no_environments(pairs@, stage.database@);
        }
    }
}

proof fn lemma_no_environments(pairs: Seq<(String, String)>, database: Seq<char>)
    requires
        forall|i: int| 0 <= i < pairs.len() ==> (#[trigger] pairs[i]).0@ != database,
    ensures
        environments_of(pairs, database).len() == 0,
    decreases pairs.len(),
{
    if pairs.len() > 0 {
        let before = pairs.drop_last();
        assert forall|i: int| 0 <= i < before.len() implies (#[trigger] before[i]).0@
            != database by {
            assert(before[i] == pairs[i]);
        }
        lemma_no_environments(before, database);
        assert(pairs[pairs.len() - 1].0@ != database);
    }
}

/// A caller who names an environment that the database is not registered in is
/// told where it is, as long as that is not in too many.
pub proof fn other_environments_are_told(
    stage: Unregistered,
    listing: Result<Vec<(String, String)>, AppError>,
    r: AppError,
)
    requires
        call_ensures(Unregistered::explain, (stage, listing), r),
        listing is Ok,
    ensures
        ({
            let base = "database '"@ + stage.database@ + "' not registered in environment '"@
                + stage.environment@ + "'"@;
            let envs = environments_of(listing->Ok_0@, stage.database@);
            &&& 1 <= envs.len() <= 5 ==> r->Validation_0@ == base + ". Available environments: "@
                + join(envs, ", "@) + ". Use --environment to specify"@
            &&& envs.len() > 5 ==> r->Validation_0@ == base
                + ". Use --environment to specify the correct environment"@
        }),
{
    assert(r@ is Validation);
}

proof fn lemma_selectors_in(approvers: Seq<JsonTree>, s: Seq<char>)
    ensures
        selectors_in(approvers).contains(s) <==> exists|i: int|
            0 <= i < approvers.len() && (#[trigger] approvers[i]).at("selector"@).as_text()
                == Some(s),
    decreases approvers.len(),
{
    if approvers.len() > 0 {
        let before = approvers.drop_last();
        let rest = selectors_in(before);
        let all = selectors_in(approvers);
        lemma_selectors_in(before, s);
        if all.contains(s) {
            let k = choose|k: int| 0 <= k < all.len() && all[k] == s;
            if k < rest.len() {
                assert(rest[k] == s);
                let i = choose|i: int|
                    0 <= i < before.len() && (#[trigger] before[i]).at("selector"@).as_text()
                        == Some(s);
                assert(approvers[i] == before[i]);
            } else {
                assert(approvers[approvers.len() - 1].at("selector"@).as_text() == Some(s));
            }
        }
        if exists|i: int|
            0 <= i < approvers.len() && (#[trigger] approvers[i]).at("selector"@).as_text()
                == Some(s) {
            let i = choose|i: int|
                0 <= i < approvers.len() && (#[trigger] approvers[i]).at("selector"@).as_text()
                    == Some(s);
            if i < before.len() {
                assert(before[i] == approvers[i]);
                let k = choose|k: int| 0 <= k < rest.len() && rest[k] == s;
                assert(all[k] == s);
            } else {
                assert(all[all.len() - 1] == s);
            }
        }
    }
}

/// A stored request that is pending waits for the approvers of the first step of
/// its stored workflow; any other waits for nobody.
pub proof fn stored_requests_wait_for_their_first_step(
    q: Request,
    r: Vec<String>,
    approvers: Seq<JsonTree>,
    s: Seq<char>,
)
    requires
        call_ensures(extract_approvers, (&q,), r),
    ensures
        q.status != RequestStatus::Pending || q.workflow_snapshot_json is None ==> r@.len() == 0,
        q.status == RequestStatus::Pending && q.workflow_snapshot_json is Some && parsed_json(
            q.workflow_snapshot_json->0@,
        ) is Some && parsed_json(q.workflow_snapshot_json->0@)->0.at("steps"@).item(0).at(
            "approvers"@,
        ).as_array() == Some(approvers) ==> (texts(r@).contains(s) <==> exists|i: int|
            0 <= i < approvers.len() && (#[trigger] approvers[i]).at("selector"@).as_text()
                == Some(s)),
{
    assert(texts(r@).len() == r@.len());
    lemma_selectors_in(approvers, s);
}

/// A pending request stays open as long as its workflow says, or else as is
/// usual; any other has no end.
pub proof fn workflows_say_how_long_requests_wait(stage: Composing, r: Option<u64>)
    requires
        call_ensures(Composing::ttl, (&stage,), r),
    ensures
        stage.status != RequestStatus::Pending ==> r is None,
        stage.status == RequestStatus::Pending ==> {
            &&& stage.workflow is Some && stage.workflow->0.pending_ttl_secs is Some ==> r
                == stage.workflow->0.pending_ttl_secs
            &&& stage.workflow is None || stage.workflow->0.pending_ttl_secs is None ==> r
                == stage.draft.submission.default_ttl_secs
        },
{
}

/// A request is created and dispatched by its requester, as it is stored.
pub proof fn requests_change_as_they_are_stored(
    stage: Persisting,
    c: TransitionContext,
    d: TransitionContext,
)
    requires
        call_ensures(Persisting::created_context, (&stage,), c),
        call_ensures(Persisting::dispatched_context, (&stage,), d),
    ensures
        c.request_id == stage.request.id && d.request_id == stage.request.id,
        c.actor_id == stage.request.requester && d.actor_id == stage.request.requester,
        c.requester_id == stage.request.requester && d.requester_id == stage.request.requester,
        c.database == stage.request.database && d.database == stage.request.database,
        c.environment == stage.request.environment && d.environment == stage.request.environment,
        c.operation == stage.request.operation && d.operation == stage.request.operation,
        c.timestamp == stage.request.created_at && d.timestamp == stage.request.created_at,
        c.metadata == (EventMetadata::Created {
            detail: stage.request.detail,
            emergency: stage.request.emergency,
        }),
        d.metadata == EventMetadata::Dispatched,
{
}

/// The record of an override says on what it was, how many statements it let
/// through, why, and which rules it passed over.
pub proof fn overrides_are_recorded_in_full(
    stage: PersistBypass,
    created: TransitionEvent,
    reply: TransitionReply,
    at: Timestamp,
    sql_redacted: String,
    c: Commit,
)
    requires
        call_ensures(
            PersistBypass::dispatched,
            (stage, created, reply, at, sql_redacted),
            Ok::<Commit, AppError>(c),
        ),
    ensures
        c.records@[2].event_category@ == "request"@,
        c.records@[2].database_name == Some(stage.persisting.request.database),
        c.records@[2].environment == Some(stage.persisting.request.environment),
        c.records@[2].detail_raw is None,
        exists|d: JsonTree|
            c.records@[2].metadata_json@ == #[trigger] rendered_json(d) && {
                &&& d.at("request_id"@) == JsonTree::Text(stage.persisting.request.id@)
                &&& d.at("sql_redacted"@) == JsonTree::Text(sql_redacted@)
                &&& d.at("statement_count"@) == JsonTree::Number(
                    uint_number(stage.persisting.statement_count as u64),
                )
                &&& stage.persisting.request.reason matches Some(s) ==> d.at("reason"@)
                    == JsonTree::Text(s@)
                &&& d.at("classifier_bypassed"@) == JsonTree::Bool(
                    stage.persisting.classifier_bypassed,
                )
                &&& d.at("reviewer_bypassed"@) == JsonTree::Bool(
                    stage.persisting.reviewer_bypassed,
                )
            },
{
    reveal_strlit("request_id");
    reveal_strlit("sql_redacted");
    reveal_strlit("statement_count");
    reveal_strlit("reason");
    reveal_strlit("classifier_bypassed");
    reveal_strlit("reviewer_bypassed");
    assert("request_id"@.len() == 10 && "sql_redacted"@.len() == 12 && "statement_count"@.len()
        == 15 && "reason"@.len() == 6 && "classifier_bypassed"@.len() == 19
        && "reviewer_bypassed"@.len() == 17);
    let p = stage.persisting;
    let m = Map::<Seq<char>, JsonTree>::empty().insert(
        "request_id"@,
        JsonTree::Text(p.request.id@),
    ).insert("sql_redacted"@, JsonTree::Text(sql_redacted@)).insert(
        "statement_count"@,
        JsonTree::Number(uint_number(p.statement_count as u64)),
    ).insert(
        "reason"@,
        JsonTree::Text(
            match p.request.reason {
                Some(s) => s@,
                None => ""@,
            },
        ),
    ).insert("classifier_bypassed"@, JsonTree::Bool(p.classifier_bypassed)).insert(
        "reviewer_bypassed"@,
        JsonTree::Bool(p.reviewer_bypassed),
    );
    let d = JsonTree::Object(m);
    assert(c.records@[2].metadata_json@ == rendered_json(d));
}

/// A refusal by the review is recorded with the rules that blocked, and with the
/// attempt to override them where there was one.
pub proof fn blocked_reviews_are_recorded(stage: BlockedReview, now: Timestamp, r: Refusal)
    requires
        call_ensures(BlockedReview::refuse, (stage, now), r),
    ensures
        r.ddl_denied == stage.bypass_attempted,
        r.audit is Some,
        r.audit->0.event_type@ == "request.blocked_by_review"@,
        r.audit->0.event_category@ == "request"@,
        r.audit->0.actor_id@ == stage.caller_id@,
        r.audit->0.created_at == now,
        r.audit->0.database_name is Some <==> !stage.bypass_attempted,
        !stage.bypass_attempted ==> r.audit->0.database_name == Some(stage.database)
            && r.audit->0.environment == Some(stage.environment),
        exists|d: JsonTree|
            r.audit->0.metadata_json@ == #[trigger] rendered_json(d) && d.at("blocked_rules"@)
                == JsonTree::Array(text_trees(texts(stage.reasons@))) && (d.at(
                "break_glass_attempted"@,
            ) == JsonTree::Bool(true) <==> stage.bypass_attempted),
{
    reveal_strlit("blocked_rules");
    reveal_strlit("break_glass_attempted");
    assert("blocked_rules"@.len() != "break_glass_attempted"@.len());
    let rules = Map::<Seq<char>, JsonTree>::empty().insert(
        "blocked_rules"@,
        JsonTree::Array(text_trees(texts(stage.reasons@))),
    );
    let d = JsonTree::Object(
        if stage.bypass_attempted {
            rules.insert("break_glass_attempted"@, JsonTree::Bool(true))
        } else {
            rules
        },
    );
    assert(r.audit->0.metadata_json@ == rendered_json(d));
}

/// A caller is told which rule a submission breaks.
pub proof fn callers_are_told_which_rule_they_break(
    stage: StatusLookup,
    status: RequestStatus,
    reply: Result<Option<String>, String>,
    e: AppError,
)
    requires
        call_ensures(StatusLookup::status, (stage, status, reply), Err::<Composing, AppError>(e)),
    ensures
        stage.workflow is Some && stage.workflow->0.require_reason
            && stage.draft.submission.input.reason is None ==> e@ == ErrorView::Validation(
            "reason_required"@,
        ),
        !(stage.workflow is Some && stage.workflow->0.require_reason
            && stage.draft.submission.input.reason is None) ==> reply is Err && e@
            == ErrorView::Internal("serialize workflow: "@ + reply->Err_0@),
{
}

} // verus!
