use kimi_cli_rs::session_fork::{fork_state, truncate_wire_at_turn};
use kimi_cli_rs::session_state::SessionState;
use kimi_cli_rs::soul::compaction::finish_compaction;
use kimi_cli_rs::soul::message::{ContentPart, Message};

const WIRE: &str = "{\"type\":\"turn_begin\",\"n\":0}\n{\"type\":\"step\"}\n\n  {\"type\":\"turn_begin\",\"n\":1}\nnot json\n{\"type\":\"turn_begin\",\"n\":2}\n{\"type\":\"step\"}\n";

#[test]
fn wire_kept_through_turn_limit() {
    let out = truncate_wire_at_turn(WIRE, Some(0));
    assert_eq!(out, "{\"type\":\"turn_begin\",\"n\":0}\n{\"type\":\"step\"}\n");
    let out1 = truncate_wire_at_turn(WIRE, Some(1));
    assert_eq!(
        out1,
        "{\"type\":\"turn_begin\",\"n\":0}\n{\"type\":\"step\"}\n  {\"type\":\"turn_begin\",\"n\":1}\nnot json\n"
    );
}

#[test]
fn wire_kept_whole_without_limit() {
    let out = truncate_wire_at_turn(WIRE, None);
    assert_eq!(out.lines().count(), 6);
    assert!(out.ends_with("{\"type\":\"step\"}\n"));
    assert_eq!(truncate_wire_at_turn("\n  \n", None), "");
}

#[test]
fn fork_state_resets_plan_and_titles() {
    let mut parent = SessionState::default();
    parent.plan_mode = true;
    parent.plan_session_id = Some("p".into());
    parent.plan_slug = Some("s".into());
    parent.additional_dirs = vec!["/x".into()];
    parent.custom_title = Some("old".into());
    let st = fork_state(parent, "My work");
    assert_eq!(st.custom_title.as_deref(), Some("Fork of My work"));
    assert!(st.title_generated);
    assert!(!st.plan_mode);
    assert!(st.plan_session_id.is_none() && st.plan_slug.is_none());
    assert_eq!(st.additional_dirs, vec!["/x".to_string()]);
}

fn msg(role: &str, text: &str) -> Message {
    Message { role: role.into(), content: vec![ContentPart::Text { text: text.into() }], tool_calls: None, tool_call_id: None }
}

#[test]
fn compaction_keeps_summary_then_preserved() {
    let kept = vec![msg("user", "recent"), msg("assistant", "reply")];
    let r = finish_compaction(Some(vec![ContentPart::Text { text: "summary".into() }]), kept);
    assert_eq!(r.messages.len(), 4);
    assert_eq!(r.messages[0].role, "user");
    assert_eq!(r.messages[0].extract_text(""), "Previous context has been compacted. Here is the summary:");
    assert_eq!(r.messages[1].role, "assistant");
    assert_eq!(r.messages[1].extract_text(""), "summary");
    assert_eq!(r.messages[2].extract_text(""), "recent");
    assert!(r.usage.is_none());
    let only = finish_compaction(None, vec![msg("user", "x")]);
    assert_eq!(only.messages.len(), 1);
}
