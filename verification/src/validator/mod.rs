//! Validators that gate commands and queries before they run.

pub mod command;
pub mod recency;
