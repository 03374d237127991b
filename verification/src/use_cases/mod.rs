//! The use cases: what each caller may do, in which order, and with what result.

pub mod agent_claim;
pub mod agent_heartbeat;
pub mod agent_poll;
pub mod agent_submit_result;
pub mod approve_request;
pub mod audit_query;
pub mod cancel_request;
pub mod create_request;
pub mod decision_trace;
pub mod dispatch_request;
pub mod dry_run;
pub mod gate;
pub mod get_request;
pub mod get_result;
pub mod get_schema;
pub mod list_requests;
pub mod policy_manage;
pub mod preflight;
pub mod reject_request;
pub mod resume_request;
pub mod risk_analysis;
pub mod schema_sync;
pub mod stream_result;
pub mod sync_config;
