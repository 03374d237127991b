//! Records kept by the repositories.

use vstd::prelude::*;

use crate::time::Timestamp;

verus! {

/// A schema snapshot of a database and environment.
pub struct SchemaSnapshotRecord {
    pub database_name: String,
    pub environment: String,
    pub status: String,
    pub snapshot_json: Option<String>,
    pub error_message: Option<String>,
    pub dialect: String,
    pub collected_at: String,
    pub agent_id: String,
}

/// A statement to be explained by an agent.
pub struct DryRunJobRecord {
    pub id: String,
    pub request_id: String,
    pub database_name: String,
    pub environment: String,
    pub sql_text: String,
    pub status: String,
    pub claimed_by: Option<String>,
    pub claimed_at: Option<String>,
    pub claim_token: Option<String>,
    pub result_json: Option<String>,
    pub error_message: Option<String>,
    pub created_at: String,
    pub completed_at: Option<String>,
}

/// What is known about a request beside the request itself.
pub struct RequestContextRecord {
    pub request_id: String,
    pub status: String,
    pub schema_snapshot_collected_at: Option<String>,
    pub tables_json: Option<String>,
    pub sql_review_json: Option<String>,
    pub risk_json: Option<String>,
    pub explain_json: Option<String>,
    pub created_at: String,
    pub updated_at: String,
}

/// How the completion of an execution ended.
#[derive(Clone, Copy, Debug, PartialEq, Eq, Structural)]
pub enum CompletionOutcome {
    /// The request was moved on.
    Normal,
    /// The request was already cancelled; the result is kept, the status is not
    /// touched.
    RequestCancelled,
}

/// A stored result in a list.
pub struct StoredResultEntry {
    pub request_id: String,
    pub database: String,
    pub environment: String,
    pub operation: String,
    pub stored_at: String,
    pub content_length: i64,
}

/// Which audit records are looked for.
pub struct AuditFilter {
    pub actor_id: Option<String>,
    pub event_type: Option<String>,
    pub event_category: Option<String>,
    pub outcome: Option<String>,
    pub environment: Option<String>,
    pub database: Option<String>,
    pub since: Option<Timestamp>,
    pub until: Option<Timestamp>,
    pub limit: u32,
    pub offset: u32,
}

/// What a check of the audit chain found.
pub struct AuditVerifyResult {
    pub total_events: u64,
    pub first_broken_id: Option<String>,
    pub failure: Option<AuditVerifyFailure>,
}

/// Where the audit chain is broken.
pub struct AuditVerifyFailure {
    pub event_id: String,
    pub event_type: String,
    pub rowid: Option<i64>,
    pub reason: VerifyFailureReason,
}

/// How the audit chain is broken.
#[derive(Clone, Copy, Debug, PartialEq, Eq, Structural)]
pub enum VerifyFailureReason {
    HashMismatch,
    PrevHashMismatch,
    UnknownChainVersion(i64),
    CheckpointSignatureInvalid,
    CheckpointCountMismatch,
    PurgeBoundaryUnauthenticated,
    LegacyBoundaryMigrationNeeded,
}

/// A statement to be explained before it is requested.
pub struct PreflightJob {
    pub id: String,
    pub user_id: String,
    pub database_name: String,
    pub environment: String,
    pub sql_text: String,
    pub status: String,
    pub claimed_by: Option<String>,
    pub claim_token: Option<String>,
    pub result_json: Option<String>,
    pub error_message: Option<String>,
    pub created_at: String,
    pub expires_at: String,
    pub completed_at: Option<String>,
}

} // verus!
