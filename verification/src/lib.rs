//! Application core of a database access gateway.
//!
//! The crate decides who may run which statement against which database, how a
//! request moves from submission to stored result, and what is recorded and
//! shown on the way. Everything here is a decision on plain values: a stage of
//! a use case says which call the surrounding program makes next and what
//! follows from the reply. Storage, transport, the clock and the SQL analysis
//! itself live outside and are reached only through those replies.

pub mod config_diagnostics;
pub mod digest;
pub mod domain;
pub mod error;
pub mod json;
pub mod ports;
pub mod services;
pub mod snapshot;
pub mod text;
pub mod time;
pub mod use_cases;
