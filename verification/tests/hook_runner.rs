use kimi_cli_rs::hooks::runner::{hook_outcome, json_hook_deny, timed_out, HookAction};

#[test]
fn run_hook_json_deny() {
    let stdout = "{\"hookSpecificOutput\":{\"permissionDecision\":\"deny\",\"permissionDecisionReason\":\"no\"}}\n";
    let result = hook_outcome(stdout.to_string(), String::new(), 0);
    assert_eq!(result.action, HookAction::Block);
    assert_eq!(result.reason, "no");
}

#[test]
fn run_hook_block_exit_2() {
    let result = hook_outcome(String::new(), "  not allowed \n".to_string(), 2);
    assert_eq!(result.action, HookAction::Block);
    assert_eq!(result.exit_code, 2);
    assert_eq!(result.reason, "not allowed");
}

#[test]
fn run_hook_allow_echo() {
    let result = hook_outcome("{}".to_string(), String::new(), 0);
    assert_eq!(result.action, HookAction::Allow);
    assert!(!result.timed_out);
}

#[test]
fn run_hook_timeout_fail_open() {
    let result = timed_out(1);
    assert_eq!(result.action, HookAction::Allow);
    assert!(result.timed_out);
    assert_eq!(result.reason, "timed out after 1s");
    assert_eq!(result.stdout, "");
    assert_eq!(result.exit_code, 0);
}

#[test]
fn json_deny_needs_a_deny_decision() {
    assert_eq!(json_hook_deny("{\"hookSpecificOutput\":{\"permissionDecision\":\"deny\"}}"), Some(String::new()));
    assert_eq!(json_hook_deny("{\"hookSpecificOutput\":{\"permissionDecision\":\"allow\"}}"), None);
    assert_eq!(json_hook_deny("{\"hookSpecificOutput\":\"deny\"}"), None);
    assert_eq!(json_hook_deny("not json"), None);
    let r = hook_outcome("{\"hookSpecificOutput\":{\"permissionDecision\":\"deny\"}}".into(), String::new(), 1);
    assert_eq!(r.action, HookAction::Allow);
    assert_eq!(r.exit_code, 1);
}
