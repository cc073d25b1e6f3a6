use kimi_cli_rs::llm::{Llm, ProviderType};
use kimi_cli_rs::llm_chat::{
    anthropic_history, anthropic_http_error, anthropic_messages_url, anthropic_reply, chat_completions_url,
    chat_echo, chat_route, chat_scripted_echo, convert_chat_message, convert_message, convert_message_to_anthropic,
    openai_http_error, unconfigured_reply, AnthropicContent, ChatMessage, ChatRoute, FunctionCallDef, ToolCallDef,
};
use kimi_cli_rs::soul::message::{ContentPart, Message, ToolCall};

fn msg(role: &str, text: &str) -> Message {
    Message { role: role.into(), content: vec![ContentPart::Text { text: text.into() }], tool_calls: None, tool_call_id: None }
}

fn llm(p: ProviderType, base: &str) -> Llm {
    let mut l = Llm::default();
    l.provider_type = p;
    l.base_url = base.into();
    l
}

#[test]
fn routes() {
    assert_eq!(chat_route(&llm(ProviderType::Kimi, "")), ChatRoute::Unconfigured);
    assert_eq!(chat_route(&llm(ProviderType::Echo, "")), ChatRoute::Echo);
    assert_eq!(chat_route(&llm(ProviderType::ScriptedEcho, "")), ChatRoute::ScriptedEcho);
    assert_eq!(chat_route(&llm(ProviderType::Chaos, "")), ChatRoute::Chaos);
    assert_eq!(chat_route(&llm(ProviderType::Anthropic, "https://a")), ChatRoute::Anthropic);
    assert_eq!(chat_route(&llm(ProviderType::Kimi, "https://k")), ChatRoute::OpenAiCompatible);
    assert_eq!(unconfigured_reply().extract_text(""), "LLM base_url is not configured.");
}

#[test]
fn echo_replies() {
    let r = chat_echo(Some("be nice"), &vec![msg("user", "hi"), msg("assistant", "yo")]);
    assert_eq!(r.role, "assistant");
    assert_eq!(r.extract_text(""), "[system]\nbe nice\n\n[user]\nhi\n\n[assistant]\nyo");
    assert_eq!(chat_echo(None, &Vec::new()).extract_text(""), "echo: no input");
    assert_eq!(chat_scripted_echo(&vec!["one".to_string(), "two".to_string()]).extract_text(""), "one");
    assert_eq!(chat_scripted_echo(&Vec::new()).extract_text(""), "scripted_echo: end of script");
}

#[test]
fn endpoints_and_errors() {
    assert_eq!(chat_completions_url("https://api.x"), "https://api.x/v1/chat/completions");
    assert_eq!(chat_completions_url("https://api.x/"), "https://api.x/v1/chat/completions");
    assert_eq!(anthropic_messages_url("https://a.b"), "https://a.b/v1/messages");
    assert_eq!(openai_http_error("500 Internal Server Error", false, "oops"), "LLM request failed: HTTP 500 Internal Server Error - oops");
    let hinted = openai_http_error("404 Not Found", true, "");
    assert!(hinted.starts_with("LLM request failed: HTTP 404 Not Found - \n\nHint: (1) `base_url`"));
    let by_body = openai_http_error("400 Bad Request", false, "{\"error\":\"resource_not_found\"}");
    assert!(by_body.contains("Hint:"));
    assert_eq!(anthropic_http_error("401 Unauthorized", "no"), "Anthropic request failed: HTTP 401 Unauthorized - no");
}

#[test]
fn openai_messages() {
    let mut m = msg("assistant", "calling");
    m.tool_calls = Some(vec![ToolCall { id: "c1".into(), name: "Read".into(), arguments: "{\"a\":1}".into() }]);
    let c = convert_message(&m);
    assert_eq!(c.content.as_deref(), Some("calling"));
    let calls = c.tool_calls.unwrap();
    assert_eq!(calls[0].tool_type, "function");
    assert_eq!(calls[0].function.arguments, "{\"a\":1}");

    let back = convert_chat_message(&ChatMessage {
        role: "assistant".into(),
        content: None,
        tool_calls: Some(vec![
            ToolCallDef {
                id: "c1".into(),
                tool_type: "function".into(),
                function: FunctionCallDef { name: "Read".into(), arguments: "{ \"a\" : 1 }".into() },
            },
            ToolCallDef {
                id: "c2".into(),
                tool_type: "function".into(),
                function: FunctionCallDef { name: "Shell".into(), arguments: "ls \"x\"".into() },
            },
        ]),
        tool_call_id: None,
    });
    assert_eq!(back.extract_text(""), "");
    let calls = back.tool_calls.unwrap();
    assert_eq!(calls[0].arguments, "{\"a\":1}");
    assert_eq!(calls[1].arguments, "{\"raw\":\"ls \\\"x\\\"\"}");
}

#[test]
fn anthropic_messages() {
    let mut m = msg("assistant", "t");
    m.tool_calls = Some(vec![ToolCall { id: "u1".into(), name: "Read".into(), arguments: "{}".into() }]);
    let a = convert_message_to_anthropic(&m);
    assert_eq!(a.role, "assistant");
    assert_eq!(a.content.len(), 2);
    assert!(matches!(&a.content[1], AnthropicContent::ToolUse { id, .. } if id == "u1"));
    assert_eq!(convert_message_to_anthropic(&msg("tool", "x")).role, "user");
    let h = anthropic_history(&vec![msg("system", "s"), msg("user", "q"), msg("assistant", "a")]);
    assert_eq!(h.len(), 2);
    assert_eq!((h[0].role.as_str(), h[1].role.as_str()), ("user", "assistant"));

    let r = anthropic_reply(&vec![
        AnthropicContent::Text { text: "one".into() },
        AnthropicContent::ToolUse { id: "u".into(), name: "Read".into(), input: "{\"p\":1}".into() },
        AnthropicContent::Text { text: "two".into() },
    ]);
    assert_eq!(r.extract_text(""), "one\ntwo");
    assert_eq!(r.tool_calls.unwrap()[0].arguments, "{\"p\":1}");
    assert!(anthropic_reply(&vec![AnthropicContent::Text { text: "x".into() }]).tool_calls.is_none());
}
