use kimi_cli_rs::soul::btw::{
    begin_side_question, build_btw_context, side_question_id, side_question_step, SideStep, BTW_MAX_TURNS,
};
use kimi_cli_rs::soul::message::{ContentPart, Message, ToolCall};

fn text_message(role: &str, text: &str) -> Message {
    Message {
        role: role.into(),
        content: vec![ContentPart::Text { text: text.into() }],
        tool_calls: None,
        tool_call_id: None,
    }
}

fn only_text(m: &Message) -> String {
    match &m.content[..] {
        [ContentPart::Text { text }] => text.clone(),
        _ => panic!("expected one text part"),
    }
}

#[test]
fn btw_context_merges_users_and_appends_question() {
    let history = vec![
        text_message("user", "a"),
        text_message("user", "b"),
        text_message("assistant", "c"),
    ];
    let out = build_btw_context(&history, "why?");
    assert_eq!(out.len(), 3);
    assert_eq!(out[0].content.len(), 2);
    assert_eq!(out[1].role, "assistant");
    assert_eq!(out[2].role, "user");
    let q = only_text(&out[2]);
    assert!(q.starts_with("This is a side question from the user."));
    assert!(q.ends_with("say so directly.\n\nwhy?"));
}

#[test]
fn btw_needs_a_model() {
    assert_eq!(begin_side_question(false, &[], "q").unwrap_err(), "LLM is not set.");
    assert_eq!(begin_side_question(true, &[], "q").unwrap().len(), 1);
}

#[test]
fn btw_step_answers_with_trimmed_text() {
    let mut history = Vec::new();
    match side_question_step(0, Ok(text_message("assistant", "  42 \n")), &mut history) {
        SideStep::Answered(a) => assert_eq!(a, "42"),
        other => panic!("unexpected {other:?}"),
    }
    assert!(history.is_empty());
    match side_question_step(0, Err("boom".into()), &mut history) {
        SideStep::Failed(e) => assert_eq!(e, "boom"),
        other => panic!("unexpected {other:?}"),
    }
    match side_question_step(0, Ok(text_message("assistant", "   ")), &mut history) {
        SideStep::Failed(e) => assert_eq!(e, "No response received."),
        other => panic!("unexpected {other:?}"),
    }
}

#[test]
fn btw_step_refuses_tool_calls() {
    let call = |id: &str, name: &str| ToolCall { id: id.into(), name: name.into(), arguments: "{}".into() };
    let reply = Message {
        tool_calls: Some(vec![call("c1", "Shell"), call("c2", "ReadFile")]),
        ..text_message("assistant", "let me look")
    };
    let mut history = vec![text_message("user", "q")];
    assert!(matches!(side_question_step(0, Ok(reply.clone()), &mut history), SideStep::Retry));
    assert_eq!(history.len(), 4);
    assert_eq!(history[1].role, "assistant");
    assert_eq!(history[2].role, "tool");
    assert_eq!(history[2].tool_call_id.as_deref(), Some("c1"));
    assert_eq!(
        only_text(&history[3]),
        "Error: Tool calls are disabled for side questions. Answer with text only."
    );
    match side_question_step(BTW_MAX_TURNS - 1, Ok(reply), &mut history) {
        SideStep::Failed(e) => assert_eq!(
            e,
            "Side question tried to call tools (Shell, ReadFile) instead of answering directly. Try rephrasing or ask in the main conversation."
        ),
        other => panic!("unexpected {other:?}"),
    }
    assert_eq!(history.len(), 4);
}

#[test]
fn btw_id_is_twelve_hex_digits() {
    let id = side_question_id();
    assert_eq!(id.len(), 12);
    assert!(id.chars().all(|c| c.is_ascii_hexdigit()));
}
