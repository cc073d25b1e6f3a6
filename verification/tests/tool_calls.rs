use kimi_cli_rs::mcp::{mcp_call_failure, mcp_tool_description, short_tool_description};
use kimi_cli_rs::plugin::{plugin_call_result, plugin_shell, plugin_spawn_failure};
use kimi_cli_rs::soul::message::ToolReturnValue;

fn error_of(v: ToolReturnValue) -> String {
    match v {
        ToolReturnValue::Error { error } => error,
        _ => panic!("expected an error"),
    }
}

#[test]
fn plugin_success_joins_output_and_trims_end() {
    match plugin_call_result("hello\n", "warn\n", true, Some(0)) {
        ToolReturnValue::Success { output, message } => {
            assert_eq!(output, "hello\n\nwarn");
            assert!(message.is_none());
        }
        _ => panic!("expected success"),
    }
    match plugin_call_result("", "only err  ", true, Some(0)) {
        ToolReturnValue::Success { output, .. } => assert_eq!(output, "only err"),
        _ => panic!("expected success"),
    }
}

#[test]
fn plugin_failure_reports_exit_code() {
    assert_eq!(
        error_of(plugin_call_result("out", "err", false, Some(2))),
        "Plugin tool exited with code Some(2):\nout\nerr"
    );
    assert_eq!(error_of(plugin_call_result("", "", false, Some(-9))), "Plugin tool exited with code Some(-9):\n");
    assert_eq!(error_of(plugin_call_result("x", "", false, None)), "Plugin tool exited with code None:\nx");
    assert_eq!(error_of(plugin_spawn_failure("no such file")), "Failed to execute plugin tool: no such file");
}

#[test]
fn plugin_shell_defaults_to_sh() {
    assert_eq!(plugin_shell(None), "/bin/sh");
    assert_eq!(plugin_shell(Some("/bin/zsh".into())), "/bin/zsh");
}

#[test]
fn mcp_tool_descriptions_name_their_server() {
    assert_eq!(
        mcp_tool_description("fs", Some("Reads files")),
        "This is an MCP (Model Context Protocol) tool from MCP server `fs`.\n\nReads files"
    );
    assert_eq!(
        mcp_tool_description("fs", None),
        "This is an MCP (Model Context Protocol) tool from MCP server `fs`.\n\nNo description provided."
    );
}

#[test]
fn mcp_call_failures_recognise_timeouts() {
    let timeout = "Timeout while calling MCP tool `read`. You may explain to the user that the timeout config is set too low.";
    assert_eq!(error_of(mcp_call_failure("read", None)), timeout);
    assert_eq!(error_of(mcp_call_failure("read", Some("Request TIMED OUT"))), timeout);
    assert_eq!(error_of(mcp_call_failure("read", Some("transport timeout"))), timeout);
    assert_eq!(error_of(mcp_call_failure("read", Some("broken pipe"))), "MCP tool call failed: broken pipe");
}

#[test]
fn tool_descriptions_are_shortened_for_listing() {
    assert_eq!(short_tool_description("Reads files").as_deref(), Some("Reads files"));
    let long = "x".repeat(60);
    assert_eq!(short_tool_description(&long), Some(format!("{}...", "x".repeat(47))));
    assert_eq!(short_tool_description(&"y".repeat(50)), Some("y".repeat(50)));
    assert_eq!(short_tool_description(&"é".repeat(30)), None);
    assert_eq!(short_tool_description(&format!("a{}", "é".repeat(30))), Some(format!("a{}...", "é".repeat(23))));
}
