use kimi_cli_rs::acp::{
    initialize_result, method_not_found, rpc_method, tool_call_answer, tools_call_target, AcpContent, RpcMethod,
};
use kimi_cli_rs::soul::message::{ContentPart, ToolReturnValue};

#[test]
fn rpc_methods_are_recognised() {
    assert_eq!(rpc_method("initialize"), RpcMethod::Initialize);
    assert_eq!(rpc_method("tools/list"), RpcMethod::ToolsList);
    assert_eq!(rpc_method("tools/call"), RpcMethod::ToolsCall);
    assert_eq!(rpc_method("tools/other"), RpcMethod::Unknown);
    let e = method_not_found("nope");
    assert_eq!(e.code, -32601);
    assert!(e.message.contains("not found"));
    assert_eq!(e.message, "Method not found: nope");
}

#[test]
fn initialize_names_protocol_and_server() {
    let r = initialize_result("1.2.3");
    assert_eq!(r.protocol_version, "2024-11-05");
    assert_eq!(r.server_name, "kimi-cli-rs-acp");
    assert_eq!(r.server_version, "1.2.3");
}

#[test]
fn tools_call_needs_a_known_name() {
    let tools = vec!["Shell".to_string(), "ReadFile".to_string()];
    let e = tools_call_target(None, &tools).unwrap_err();
    assert_eq!((e.code, e.message.as_str()), (-32602, "Missing tool name"));
    let e = tools_call_target(Some(""), &tools).unwrap_err();
    assert_eq!(e.message, "Missing tool name");
    let e = tools_call_target(Some("Grep"), &tools).unwrap_err();
    assert_eq!((e.code, e.message.as_str()), (-32602, "Tool not found: Grep"));
    assert_eq!(tools_call_target(Some("ReadFile"), &tools).unwrap(), "ReadFile");
}

#[test]
fn tool_call_answers_follow_the_result() {
    let (c, err) = tool_call_answer(ToolReturnValue::Error { error: "bad".into() });
    assert!(err);
    assert!(matches!(&c[..], [AcpContent::Text { text }] if text == "bad"));
    let (c, err) = tool_call_answer(ToolReturnValue::Success { output: "ok".into(), message: Some("m".into()) });
    assert!(!err);
    assert!(matches!(&c[..], [AcpContent::Text { text }] if text == "ok"));
    let (c, err) = tool_call_answer(ToolReturnValue::Parts {
        parts: vec![
            ContentPart::Think { thought: "hmm".into() },
            ContentPart::ImageUrl { url: "data:x".into() },
        ],
    });
    assert!(!err);
    assert!(matches!(&c[0], AcpContent::Text { text } if text == "[think] hmm"));
    assert!(matches!(&c[1], AcpContent::Image { data } if data == "data:x"));
}
