//! Records and texts made of requests, results and plans.

pub mod audit_event_builder;
pub mod explain_formatter;
pub mod risk_display;
pub mod tables_display;
