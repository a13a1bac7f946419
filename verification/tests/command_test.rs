use q_body::validator::command::{extract_variables, has_rm_rf, scan_rm_command, SafetyError};

fn defined(names: &[&str]) -> Vec<String> {
    names.iter().map(|s| s.to_string()).collect()
}

#[test]
fn test_has_rm_rf_simple() {
    assert!(has_rm_rf("rm -rf /tmp/foo"));
    assert!(has_rm_rf("rm -fr /tmp/foo"));
    assert!(has_rm_rf("rm -r -f /tmp/foo"));
    assert!(has_rm_rf("rm -f -r /tmp/foo"));
    assert!(!has_rm_rf("rm -f /tmp/foo"));
    assert!(!has_rm_rf("rm -r /tmp/foo"));
    assert!(!has_rm_rf("rm /tmp/foo"));
    assert!(!has_rm_rf("ls -la"));
}

#[test]
fn test_extract_variables_dollar() {
    let vars = extract_variables("rm -rf $HOME/tmp");
    assert_eq!(vars, vec!["HOME"]);
}

#[test]
fn test_extract_variables_braced() {
    let vars = extract_variables("rm -rf ${HOME}/tmp");
    assert_eq!(vars, vec!["HOME"]);
}

#[test]
fn test_extract_variables_with_guard() {
    let vars = extract_variables("rm -rf ${HOME:?}/tmp");
    assert_eq!(vars, vec!["HOME"]);
}

#[test]
fn test_extract_variables_multiple() {
    let vars = extract_variables("rm -rf $A/$B/${C}");
    assert_eq!(vars, vec!["A", "B", "C"]);
}

#[test]
fn test_scan_no_rm_rf_passes() {
    assert!(scan_rm_command("ls -la /tmp", &defined(&[])).is_ok());
    assert!(scan_rm_command("rm -f file.txt", &defined(&[])).is_ok());
}

#[test]
fn test_scan_dangerous_target_root() {
    let r = scan_rm_command("rm -rf /", &defined(&["HOME"]));
    assert!(matches!(r, Err(SafetyError::DangerousTarget { .. })));
}

#[test]
fn test_scan_unset_var_rejected() {
    let r = scan_rm_command("rm -rf $Q_BODY_NONEXISTENT_VAR_12345/tmp", &defined(&["HOME"]));
    match r {
        Err(SafetyError::UnresolvedVariable { var_name, suggestion, .. }) => {
            assert_eq!(var_name, "Q_BODY_NONEXISTENT_VAR_12345");
            assert!(suggestion.contains("${Q_BODY_NONEXISTENT_VAR_12345:?}"));
        }
        _ => panic!("expected UnresolvedVariable"),
    }
}

#[test]
fn test_scan_set_var_passes() {
    let r = scan_rm_command("rm -rf $HOME/tmp/foo", &defined(&["HOME"]));
    assert!(r.is_ok(), "expected ok, got {:?}", r);
}

#[test]
fn test_error_display_suggestion() {
    let r = scan_rm_command("rm -rf $Q_BODY_NONEXISTENT_XYZ/tmp", &defined(&["HOME"]));
    let err = r.unwrap_err();
    let msg = err.to_string();
    assert!(msg.contains("Q_BODY_NONEXISTENT_XYZ"));
    assert!(msg.contains(":?"));
}

#[test]
fn home_itself_is_dangerous() {
    let r = scan_rm_command("rm -rf ~", &defined(&["HOME"]));
    assert!(matches!(r, Err(SafetyError::DangerousTarget { .. })));
}

#[test]
fn first_unset_variable_is_reported() {
    let r = scan_rm_command("rm -rf $A/$B", &defined(&["A"]));
    match r {
        Err(SafetyError::UnresolvedVariable { var_name, command, .. }) => {
            assert_eq!(var_name, "B");
            assert_eq!(command, "rm -rf $A/$B");
        }
        other => panic!("unexpected {:?}", other),
    }
}
