//! Records of onboarding requests.

use vstd::prelude::*;

use crate::time::Timestamp;

verus! {

/// An onboarding request as it is stored.
pub struct OnboardingRequest {
    pub id: String,
    pub slack_user_id: String,
    pub display_name: Option<String>,
    pub requested_roles: Vec<String>,
    pub requested_groups: Vec<String>,
    pub reason: Option<String>,
    pub status: String,
    pub message_ts: Option<String>,
    pub created_at: Timestamp,
    pub expires_at: Timestamp,
}

/// An onboarding request to be stored.
pub struct CreateOnboardingInput {
    pub id: String,
    pub slack_user_id: String,
    pub display_name: Option<String>,
    pub requested_roles: Vec<String>,
    pub requested_groups: Vec<String>,
    pub reason: Option<String>,
    pub created_at: Timestamp,
    pub expires_at: Timestamp,
}

/// Whether an onboarding request was claimed for a decision; a request that was
/// already decided is not.
#[derive(Clone, Copy, Debug, PartialEq, Eq, Structural)]
pub struct ClaimResult {
    pub claimed: bool,
}

} // verus!
