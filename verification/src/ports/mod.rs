//! Records that cross the boundary to storage, notification and agents.

pub mod authorizer;
pub mod onboarding;
pub mod repos;
pub mod services;

pub use authorizer::filter_accessible;
pub use onboarding::{ClaimResult, CreateOnboardingInput, OnboardingRequest};
pub use repos::{
    AuditFilter, AuditVerifyFailure, AuditVerifyResult, CompletionOutcome, DryRunJobRecord,
    PreflightJob, RequestContextRecord, SchemaSnapshotRecord, StoredResultEntry,
    VerifyFailureReason,
};
pub use services::WebhookEvent;
