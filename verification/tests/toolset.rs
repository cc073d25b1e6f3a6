use kimi_cli_rs::error::KimiCliError;
use kimi_cli_rs::mcp::McpServerStatus;
use kimi_cli_rs::soul::message::{ContentPart, ToolCall, ToolReturnValue};
use kimi_cli_rs::soul::toolset::{
    answer_without_running, classify_tool, hook_blocked_result, mcp_load_error, normalize_tool_name,
    output_preview, McpServerRegistry, ToolKind,
};

fn call(name: &str) -> ToolCall {
    ToolCall { id: "id1".into(), name: name.into(), arguments: "{}".into() }
}

fn error_text(v: &ToolReturnValue) -> String {
    match v {
        ToolReturnValue::Error { error } => error.clone(),
        _ => panic!("expected an error"),
    }
}

#[test]
fn tool_names_lose_their_module_prefix() {
    assert_eq!(normalize_tool_name("kimi_cli.tools.file:ReadFile"), "ReadFile");
    assert_eq!(normalize_tool_name("a:b:Shell"), "Shell");
    assert_eq!(normalize_tool_name("Think"), "Think");
}

#[test]
fn tool_names_are_classified() {
    assert!(matches!(classify_tool("kimi_cli.tools.shell:Shell"), ToolKind::Builtin(n) if n == "Shell"));
    assert!(matches!(classify_tool("FetchURL"), ToolKind::Builtin(n) if n == "FetchURL"));
    assert!(matches!(classify_tool("kimi_cli.tools.agent:Agent"), ToolKind::Agent));
    assert!(matches!(classify_tool("x:Nope"), ToolKind::Unknown(n) if n == "Nope"));
}

#[test]
fn calls_answered_without_running() {
    let r = answer_without_running(true, &call("Shell"), true).unwrap();
    assert_eq!(r.tool_call_id, "id1");
    assert_eq!(error_text(&r.return_value), "Tool calls are disabled for side questions. Answer with text only.");
    let r = answer_without_running(false, &call("Ghost"), false).unwrap();
    assert_eq!(error_text(&r.return_value), "Tool 'Ghost' not found");
    assert!(answer_without_running(false, &call("Shell"), true).is_none());
    let r = hook_blocked_result(&call("Shell"), "no shell today");
    assert_eq!(error_text(&r.return_value), "Blocked by hook: no shell today");
}

#[test]
fn output_preview_is_cut_to_2000_chars() {
    let long = "é".repeat(2500);
    let p = output_preview(&ToolReturnValue::Success { output: long, message: None });
    assert_eq!(p.chars().count(), 2000);
    assert_eq!(output_preview(&ToolReturnValue::Error { error: "bad".into() }), "bad");
    let parts = ToolReturnValue::Parts {
        parts: vec![
            ContentPart::Text { text: "a".into() },
            ContentPart::ImageUrl { url: "u".into() },
            ContentPart::Think { thought: "b".into() },
        ],
    };
    assert_eq!(output_preview(&parts), "ab");
}

#[test]
fn mcp_registry_connects_each_server_once() {
    let mut reg: McpServerRegistry<u32> = McpServerRegistry::new();
    reg.register_pending(&vec!["a".to_string(), "b".to_string(), "a".to_string()]);
    assert_eq!(reg.len(), 2);
    reg.register_pending(&vec!["a".to_string(), "b".to_string()]);
    assert_eq!(reg.len(), 2);
    assert!(reg.begin_connect("a"));
    assert!(!reg.begin_connect("a"));
    assert!(!reg.begin_connect("zzz"));
    reg.finish_connect("a", Some((7, vec!["t1".to_string(), "t2".to_string()])));
    assert!(reg.begin_connect("b"));
    reg.finish_connect("b", None);
    let snap = reg.status_snapshot(true).unwrap();
    assert!(snap.loading);
    assert_eq!(snap.total, 2);
    assert_eq!(snap.connected, 1);
    assert_eq!(snap.tools, 2);
    assert_eq!(snap.servers[0].status, "connected");
    assert_eq!(snap.servers[1].status, "failed");
    assert_eq!(reg.take_connections(), vec![7]);
    assert!(reg.status_snapshot(false).is_none());
    let _ = McpServerStatus::Pending;
}

#[test]
fn mcp_load_error_lists_failed_servers() {
    assert!(mcp_load_error(&Vec::new()).is_none());
    match mcp_load_error(&vec!["a".to_string(), "b".to_string()]) {
        Some(KimiCliError::McpRuntime(m)) => assert_eq!(m, "Failed to connect MCP servers: [\"a\", \"b\"]"),
        _ => panic!("expected an MCP runtime error"),
    }
}
