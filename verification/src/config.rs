//! Timeout configuration: bounds on outbound HTTP requests and on a
//! task's whole lifetime.

use vstd::prelude::*;

use crate::text::{parse_u64, parse_u64_exec};

verus! {

/// What `Duration::from_secs` gives for a number of seconds.
pub uninterp spec fn secs_duration(secs: u64) -> std::time::Duration;

/// Calls `Duration::from_secs`: the duration of `secs` whole seconds,
/// which depends on `secs` alone.
#[verifier::external_body]
fn duration_from_secs(secs: u64) -> (d: std::time::Duration)
    ensures
        d == secs_duration(secs),
{
    std::time::Duration::from_secs(secs)
}

/// Timeouts.  Defaults: 60 s for HTTP requests, 300 s for a task.
#[derive(Debug, Clone, Copy)]
pub struct TimeoutConfig {
    /// Timeout of an outbound HTTP request (such as an LLM call).
    pub http_timeout: std::time::Duration,
    /// Longest wall-clock time of one task.
    pub task_timeout: std::time::Duration,
}

/// The seconds given by an environment value: its `u64` value when it
/// parses as one, `default` otherwise (and when it is unset).
pub open spec fn secs_from(value: Option<Seq<char>>, default: u64) -> u64 {
    match value {
        Some(v) => match parse_u64(v) {
            Some(n) => n,
            None => default,
        },
        None => default,
    }
}

/// The seconds given by an environment value: its `u64` value when it
/// parses as one, `default` otherwise (and when it is unset).
pub fn secs_or(value: Option<&str>, default: u64) -> (n: u64)
    ensures
        n == secs_from(
            match value {
                Some(v) => Some(v@),
                None => None,
            },
            default,
        ),
{
    match value {
        Some(v) => match parse_u64_exec(v) {
            Some(n) => n,
            None => default,
        },
        None => default,
    }
}

impl TimeoutConfig {
    /// A configuration with the given timeouts.
    pub fn new(http_timeout: std::time::Duration, task_timeout: std::time::Duration) -> (c: Self)
        ensures
            c.http_timeout == http_timeout,
            c.task_timeout == task_timeout,
    {
        TimeoutConfig { http_timeout, task_timeout }
    }

    /// A configuration of whole seconds.
    pub fn from_secs(http_secs: u64, task_secs: u64) -> (c: Self)
        ensures
            c.http_timeout == secs_duration(http_secs),
            c.task_timeout == secs_duration(task_secs),
    {
        TimeoutConfig {
            http_timeout: duration_from_secs(http_secs),
            task_timeout: duration_from_secs(task_secs),
        }
    }
}

impl Default for TimeoutConfig {
    /// 60 s for HTTP requests, 300 s for a task.
    fn default() -> (c: Self)
        ensures
            c.http_timeout == secs_duration(60),
            c.task_timeout == secs_duration(300),
    {
        Self::from_secs(60, 300)
    }
}

} // verus!
