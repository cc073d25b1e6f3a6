use kimi_cli_rs::approval_runtime::{ApprovalDecision, ApprovalRuntime};
use kimi_cli_rs::config::ModelCapability;
use kimi_cli_rs::hooks::events::{notification, payload_get, pre_tool_use, stop, HookValue};
use kimi_cli_rs::metadata::WorkDirMeta;
use kimi_cli_rs::session_fork::truncate_context_at_turn;
use kimi_cli_rs::session_state::{
    migrate_legacy_metadata, ApprovalStateData, LegacyMetadata, LegacyMigration, SessionState,
};

fn str_value<'a>(v: Option<&'a HookValue>) -> &'a str {
    match v {
        Some(HookValue::Str(s)) => s.as_str(),
        _ => panic!("not a text value"),
    }
}

#[test]
fn auto_approve_exact_match() {
    let mut rt = ApprovalRuntime::default();
    rt.add_auto_approve_pattern("ReadFile");
    assert_eq!(rt.evaluate("ReadFile", &serde_json::Value::Null), ApprovalDecision::Approve);
}

#[test]
fn deny_takes_precedence() {
    let mut rt = ApprovalRuntime::default();
    rt.add_auto_approve_pattern("*");
    rt.add_deny_pattern("Shell");
    assert_eq!(
        rt.evaluate("Shell", &serde_json::Value::Null),
        ApprovalDecision::Deny { reason: "tool 'Shell' matched deny pattern 'Shell'".into() }
    );
}

#[test]
fn wildcard_auto_approve() {
    let mut rt = ApprovalRuntime::default();
    rt.add_auto_approve_pattern("Read*");
    assert_eq!(rt.evaluate("ReadFile", &serde_json::Value::Null), ApprovalDecision::Approve);
    assert_eq!(rt.evaluate("WriteFile", &serde_json::Value::Null), ApprovalDecision::RequestUser);
}

#[test]
fn deny_wildcard_beats_exact_approval() {
    let mut rt = ApprovalRuntime::new();
    rt.add_auto_approve_pattern("Shell");
    rt.add_deny_pattern("Sh*");
    assert_eq!(
        rt.evaluate("Shell", &serde_json::Value::Null),
        ApprovalDecision::Deny { reason: "tool 'Shell' matched deny pattern 'Sh*'".into() }
    );
    assert_eq!(rt.evaluate("Read", &serde_json::Value::Null), ApprovalDecision::RequestUser);
}

#[test]
fn pre_tool_use_payload() {
    let mut input = serde_json::Map::new();
    input.insert("command".to_string(), serde_json::Value::String("echo hi".into()));
    let payload = pre_tool_use("s1", "/tmp", "Shell", &serde_json::Value::Object(input), "tc1");
    assert_eq!(str_value(payload_get(&payload, "hook_event_name")), "PreToolUse");
    assert_eq!(str_value(payload_get(&payload, "session_id")), "s1");
    assert_eq!(str_value(payload_get(&payload, "tool_name")), "Shell");
}

#[test]
fn stop_payload_default() {
    let payload = stop("s1", "/tmp", false);
    assert_eq!(str_value(payload_get(&payload, "hook_event_name")), "Stop");
    assert!(matches!(payload_get(&payload, "stop_hook_active"), Some(HookValue::Bool(false))));
}

#[test]
fn notification_payload() {
    let payload = notification("s1", "/tmp", "desktop", "info", "title", "body", "warning");
    assert_eq!(str_value(payload_get(&payload, "sink")), "desktop");
    assert_eq!(str_value(payload_get(&payload, "severity")), "warning");
}

#[test]
fn payload_get_missing_key() {
    let payload = stop("s1", "/tmp", true);
    assert!(payload_get(&payload, "nope").is_none());
    assert!(matches!(payload_get(&payload, "stop_hook_active"), Some(HookValue::Bool(true))));
}

#[test]
fn work_dir_meta_sessions_dir_contains_md5() {
    let meta = WorkDirMeta { path: "/tmp/test".into(), kaos: "local".into(), last_session_id: None };
    let dir = meta.sessions_dir("/home/u/.kimi");
    let file_name = dir.rsplit('/').next().unwrap();
    assert_eq!(file_name, format!("{:x}", md5::compute("/tmp/test")));
    assert_eq!(dir, format!("/home/u/.kimi/sessions/{}", file_name));
}

#[test]
fn work_dir_meta_other_kaos_prefixes_name() {
    let meta = WorkDirMeta { path: "/w".into(), kaos: "ssh".into(), last_session_id: None };
    assert_eq!(meta.sessions_dir_name(), format!("ssh_{:x}", md5::compute("/w")));
}

#[test]
fn truncate_context_keeps_all_when_under_limit() {
    let ctx = r#"{"role":"_system_prompt","content":"hi"}
{"role":"user","content":[{"type":"text","text":"hello"}]}
{"role":"assistant","content":[{"type":"text","text":"world"}]}
"#;
    assert_eq!(truncate_context_at_turn(ctx, 5), ctx);
}

#[test]
fn truncate_context_drops_after_limit() {
    let ctx = r#"{"role":"user","content":[{"type":"text","text":"t1"}]}
{"role":"assistant","content":[{"type":"text","text":"a1"}]}
{"role":"user","content":[{"type":"text","text":"t2"}]}
{"role":"assistant","content":[{"type":"text","text":"a2"}]}
"#;
    let expected = r#"{"role":"user","content":[{"type":"text","text":"t1"}]}
{"role":"assistant","content":[{"type":"text","text":"a1"}]}
"#;
    assert_eq!(truncate_context_at_turn(ctx, 0), expected);
}

#[test]
fn truncate_context_preserves_metadata() {
    let ctx = r#"{"role":"_system_prompt","content":"sys"}
{"role":"_checkpoint","id":0}
{"role":"user","content":[{"type":"text","text":"u"}]}
{"role":"_usage","token_count":4}
{"role":"assistant","content":[{"type":"text","text":"a"}]}
{"role":"user","content":[{"type":"text","text":"next"}]}
"#;
    let expected = r#"{"role":"_system_prompt","content":"sys"}
{"role":"_checkpoint","id":0}
{"role":"user","content":[{"type":"text","text":"u"}]}
{"role":"_usage","token_count":4}
{"role":"assistant","content":[{"type":"text","text":"a"}]}
"#;
    assert_eq!(truncate_context_at_turn(ctx, 0), expected);
}

#[test]
fn session_state_default() {
    let st = SessionState::default();
    assert!(!st.approval.yolo);
    assert!(st.additional_dirs.is_empty());
    assert_eq!(st.title_generate_attempts, 0);
    assert_eq!(st.version, 1);
}

#[test]
fn approval_state_data_default() {
    let a = ApprovalStateData::default();
    assert!(!a.yolo);
    assert!(a.auto_approve_actions.is_empty());
}

fn legacy() -> LegacyMetadata {
    LegacyMetadata {
        title: None,
        title_generated: None,
        title_generate_attempts: None,
        archived: None,
        archived_at: None,
        auto_archive_exempt: None,
        wire_mtime: None,
    }
}

#[test]
fn legacy_metadata_fills_missing_fields() {
    let mut st = SessionState::default();
    let mut data = legacy();
    data.title = Some("My session".into());
    data.title_generated = Some(true);
    data.title_generate_attempts = Some(3);
    data.archived_at = Some(1.5f64.to_bits());
    assert_eq!(migrate_legacy_metadata(&mut st, &data), LegacyMigration::Migrated);
    assert_eq!(st.custom_title.as_deref(), Some("My session"));
    assert!(st.title_generated);
    assert_eq!(st.title_generate_attempts, 3);
    assert_eq!(st.archived_at.map(f64::from_bits), Some(1.5));
    assert!(!st.archived);
    // A second pass takes nothing more.
    assert_eq!(migrate_legacy_metadata(&mut st, &data), LegacyMigration::NoChange);
}

#[test]
fn legacy_metadata_keeps_existing_values() {
    let mut st = SessionState::default();
    st.custom_title = Some("Kept".into());
    st.title_generate_attempts = 2;
    let mut data = legacy();
    data.title = Some("Other".into());
    data.title_generate_attempts = Some(7);
    assert_eq!(migrate_legacy_metadata(&mut st, &data), LegacyMigration::NoChange);
    assert_eq!(st.custom_title.as_deref(), Some("Kept"));
    assert_eq!(st.title_generate_attempts, 2);
}

#[test]
fn legacy_untitled_and_false_flags_are_ignored() {
    let mut st = SessionState::default();
    let mut data = legacy();
    data.title = Some("Untitled".into());
    data.archived = Some(false);
    data.title_generate_attempts = Some(0);
    assert_eq!(migrate_legacy_metadata(&mut st, &data), LegacyMigration::NoChange);
    assert!(st.custom_title.is_none());
    assert!(!st.archived);
}

#[test]
fn model_capability_roundtrip() {
    let cap = ModelCapability::Thinking;
    let text = cap.to_string();
    let de = ModelCapability::from_name(&text).unwrap();
    assert_eq!(cap, de);
    assert_eq!(cap.to_string(), "thinking");
}
