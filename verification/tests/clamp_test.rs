use q_body::clamp::{clamp_content, clamp_line, DEFAULT_MAX_LINE_BYTES, TRUNCATED_MARK};

#[test]
fn test_short_line_untouched() {
    assert_eq!(clamp_line("hello", 100), "hello");
}

#[test]
fn test_exact_limit_untouched() {
    let line = "a".repeat(64);
    assert_eq!(clamp_line(&line, 64), line);
}

#[test]
fn test_ascii_truncation_appends_mark() {
    let line = "a".repeat(100);
    let clamped = clamp_line(&line, 64);
    assert!(clamped.ends_with(TRUNCATED_MARK));
    assert!(clamped.starts_with("aaa"));
    assert!(clamped.len() <= 64);
}

#[test]
fn test_result_never_exceeds_limit() {
    let line = "x".repeat(10_000);
    for max in [8usize, 16, 100, DEFAULT_MAX_LINE_BYTES] {
        assert!(clamp_line(&line, max).len() <= max);
    }
}

#[test]
fn test_cjk_char_boundary_safe() {
    let line = "中".repeat(1000);
    let clamped = clamp_line(&line, 64);
    assert!(clamped.len() <= 64);
    assert!(clamped.ends_with(TRUNCATED_MARK));
    let body = clamped.trim_end_matches(TRUNCATED_MARK);
    assert!(body.chars().all(|c| c == '中'));
    assert_eq!(body.len() % 3, 0);
}

#[test]
fn test_content_preserves_line_count() {
    let long = "z".repeat(200);
    let content = format!("first\n{long}\nlast");
    let clamped = clamp_content(&content, 64);
    let lines: Vec<&str> = clamped.lines().collect();
    assert_eq!(lines.len(), 3);
    assert_eq!(lines[0], "first");
    assert_eq!(lines[2], "last");
    assert!(lines[1].ends_with(TRUNCATED_MARK));
}

#[test]
fn test_empty_and_single_line() {
    assert_eq!(clamp_content("", 64), "");
    assert_eq!(clamp_content("ok", 64), "ok");
    assert_eq!(clamp_content(&"q".repeat(999), 16).len() <= 16, true);
}

#[test]
fn test_default_threshold_is_8k() {
    assert_eq!(DEFAULT_MAX_LINE_BYTES, 8192);
}

#[test]
fn clamped_line_of_exact_bytes() {
    // 64 bytes allowed, 11 for the mark: 53 characters of the line kept.
    let clamped = clamp_line(&"a".repeat(100), 64);
    assert_eq!(clamped, format!("{}{}", "a".repeat(53), TRUNCATED_MARK));
}

#[test]
fn limit_below_mark_cuts_without_mark() {
    assert_eq!(clamp_line("abcdefghijklmnop", 5), "abcde");
    assert_eq!(clamp_line("中中中", 4), "中");
}

#[test]
fn clamping_twice_changes_nothing() {
    let once = clamp_line(&"中".repeat(50), 40);
    assert_eq!(clamp_line(&once, 40), once);
}

#[test]
fn crlf_lines_are_joined_with_newline() {
    assert_eq!(clamp_content("a\r\nb", 64), "a\nb");
}

#[test]
fn clamp_content_keeps_empty_last_line() {
    assert_eq!(clamp_content("a\n\n", 64), "a\n\n");
    assert_eq!(clamp_content("a\n\n", 64).lines().count(), "a\n\n".lines().count());
    assert_eq!(clamp_content("\n", 64), "\n");
    assert_eq!(clamp_content("x\n\ny", 64), "x\n\ny");
}
