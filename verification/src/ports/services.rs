//! Outgoing notifications.

use vstd::prelude::*;

verus! {

/// A notification about a request, sent after the change is committed.
pub struct WebhookEvent {
    pub event_type: String,
    pub request_id: Option<String>,
    pub database: Option<String>,
    pub environment: Option<String>,
    pub actor: Option<String>,
    pub detail: Option<String>,
    pub requester: Option<String>,
    pub reason: Option<String>,
    pub redacted_detail: Option<String>,
    pub error_summary: Option<String>,
    pub approval_hint: Option<String>,
    pub operation: Option<String>,
    pub step_index: Option<u32>,
    pub total_steps: Option<u32>,
    pub expires_at: Option<String>,
    pub approvers: Option<Vec<String>>,
    pub matched_selector: Option<String>,
}

} // verus!
