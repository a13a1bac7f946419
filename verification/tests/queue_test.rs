use q_body::queue::{LlmFailureKind, LlmParseEvent};

#[test]
fn test_kind_as_str() {
    assert_eq!(LlmFailureKind::HttpRequest.as_str(), "http_request");
    assert_eq!(LlmFailureKind::ApiError.as_str(), "api_error");
    assert_eq!(LlmFailureKind::JsonParse.as_str(), "json_parse");
}

#[test]
fn test_error_summary_is_truncated() {
    let long_err = "x".repeat(200);
    let event = LlmParseEvent::record(LlmFailureKind::JsonParse, None, 0, &long_err);
    assert!(event.error_summary.len() <= 80);
    assert!(event.error_summary.ends_with("..."));
}

#[test]
fn test_short_error_untouched() {
    let short = "expected value at line 1 column 1";
    let event = LlmParseEvent::record(LlmFailureKind::JsonParse, None, 0, short);
    assert_eq!(event.error_summary, short);
}

#[test]
fn test_http_request_event() {
    let event = LlmParseEvent::record(
        LlmFailureKind::HttpRequest,
        None,
        0,
        "connection refused: tcp connect error",
    );
    assert_eq!(event.kind, LlmFailureKind::HttpRequest);
    assert!(event.timestamp > 0);
}

#[test]
fn test_api_error_with_status() {
    let event = LlmParseEvent::record(LlmFailureKind::ApiError, Some(429), 145, "rate limit exceeded");
    assert_eq!(event.status_code, Some(429));
    assert_eq!(event.response_length, 145);
}

#[test]
fn test_json_parse_event() {
    let event = LlmParseEvent::record(
        LlmFailureKind::JsonParse,
        None,
        3281,
        "expected value at line 1 column 1",
    );
    assert_eq!(event.kind, LlmFailureKind::JsonParse);
    assert_eq!(event.response_length, 3281);
}

#[test]
fn summary_keeps_77_bytes_and_marks_the_cut() {
    let event = LlmParseEvent::record(LlmFailureKind::ApiError, None, 0, &"y".repeat(81));
    assert_eq!(event.error_summary, format!("{}...", "y".repeat(77)));
    let event = LlmParseEvent::record(LlmFailureKind::ApiError, None, 0, &"y".repeat(80));
    assert_eq!(event.error_summary, "y".repeat(80));
}

#[test]
fn summary_is_trimmed() {
    let event = LlmParseEvent::record(LlmFailureKind::ApiError, None, 0, "  spaced out \n");
    assert_eq!(event.error_summary, "spaced out");
}

#[test]
fn multibyte_summary_is_cut_at_a_character_boundary() {
    let long = "错".repeat(40);
    let e = LlmParseEvent::record(LlmFailureKind::JsonParse, None, 0, &long);
    assert!(e.error_summary.len() <= 80);
    assert_eq!(e.error_summary, format!("{}...", "错".repeat(25)));
}
