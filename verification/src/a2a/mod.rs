//! A2A protocol types and helpers.

pub mod plan;
pub mod types;
