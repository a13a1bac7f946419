//! Structured events for failed LLM calls.
//!
//! Each failure is recorded at the point where it happens, with its kind,
//! status code, response length and a bounded summary of the error, so
//! that retry policies can be narrowed on measurements.

use vstd::prelude::*;

use crate::clamp::{fit_count_exec, fit_prefix, fits_in};
use crate::clock::unix_now_secs;
use crate::text::{chars_of, push_str, slice_chars, string_from_chars, trim, trim_chars, utf8_len};

verus! {

/// Kind of LLM call failure.
#[derive(Debug, Clone, Copy, PartialEq, Eq, Structural)]
pub enum LlmFailureKind {
    /// The HTTP request failed (connection, DNS, timeout).
    HttpRequest,
    /// The API answered with a non-2xx status.
    ApiError,
    /// The response body was not the expected JSON.
    JsonParse,
}

impl LlmFailureKind {
    /// The kind's label.
    pub open spec fn label(self) -> Seq<char> {
        match self {
            LlmFailureKind::HttpRequest => "http_request"@,
            LlmFailureKind::ApiError => "api_error"@,
            LlmFailureKind::JsonParse => "json_parse"@,
        }
    }

    /// The kind's label.
    pub fn as_str(&self) -> (s: &'static str)
        ensures
            s@ == self.label(),
    {
        match self {
            LlmFailureKind::HttpRequest => "http_request",
            LlmFailureKind::ApiError => "api_error",
            LlmFailureKind::JsonParse => "json_parse",
        }
    }
}

/// A failed LLM call.
#[derive(Debug)]
pub struct LlmParseEvent {
    /// Failure kind.
    pub kind: LlmFailureKind,
    /// HTTP status code (for API errors).
    pub status_code: Option<u16>,
    /// Length of the response body in bytes (0 when unknown).
    pub response_length: usize,
    /// Error summary, at most 80 bytes.
    pub error_summary: String,
    /// When it happened (Unix seconds).
    pub timestamp: u64,
}

/// The summary kept of an error message: the trimmed message, or, when it
/// is over 80 bytes, its longest prefix within 77 bytes and `...`.
pub open spec fn summary_of(msg: Seq<char>) -> Seq<char> {
    let t = trim(msg);
    if utf8_len(t) > 80 {
        fit_prefix(t, 77) + "..."@
    } else {
        t
    }
}

impl LlmParseEvent {
    /// Records a failure, timestamped now.  The summary is the trimmed
    /// message; when that is over 80 bytes, it is cut at the last character
    /// boundary within 77 bytes and marked with `...`.
    pub fn record(
        kind: LlmFailureKind,
        status_code: Option<u16>,
        response_length: usize,
        error_summary: &str,
    ) -> (e: Self)
        ensures
            e.kind == kind,
            e.status_code == status_code,
            e.response_length == response_length,
            e.error_summary@ == summary_of(error_summary@),
            utf8_len(e.error_summary@) <= 80,
    {
        let t = trim_chars(&chars_of(error_summary));
        let summary = if fits_in(&t, 80) {
            string_from_chars(&t)
        } else {
            let n = fit_count_exec(&t, 77);
            proof {
                crate::clamp::lemma_fit_prefix(t@, 77);
            }
            let p = slice_chars(&t, 0, n);
            let mut s = string_from_chars(&p);
            push_str(&mut s, "...");
            proof {
                reveal_strlit("...");
                crate::text::lemma_utf8_len_ascii("..."@);
                crate::text::lemma_utf8_len_concat(p@, "..."@);
            }
            s
        };
        LlmParseEvent {
            kind,
            status_code,
            response_length,
            error_summary: summary,
            timestamp: unix_now_secs(),
        }
    }
}

} // verus!
