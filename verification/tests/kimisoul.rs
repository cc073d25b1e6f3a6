use kimi_cli_rs::approval_runtime::ApprovalRuntime;
use kimi_cli_rs::soul::kimisoul::{
    approval_description, dmail_notice, final_assistant_message, first_turn_title, gate_tool_call, input_text,
    max_steps, no_llm_reply, parse_slash_command, rejection_message, settle_user_answer, slash_reply, step_stop,
    step_messages, stop_reason_name, AfterStep, CallOutcome, PlanState, ToolGate,
};
use kimi_cli_rs::soul::denwa_renji::DMail;
use kimi_cli_rs::soul::message::{ContentPart, Message, ToolCall, ToolReturnValue};
use kimi_cli_rs::soul::TurnStopReason;

fn call(name: &str) -> ToolCall {
    ToolCall { id: "tc1".into(), name: name.into(), arguments: "{\"path\":\"a\"}".into() }
}

fn msg(role: &str, text: &str) -> Message {
    Message {
        role: role.into(),
        content: vec![ContentPart::Text { text: text.into() }],
        tool_calls: None,
        tool_call_id: None,
    }
}

fn is_hex_id(s: &str) -> bool {
    s.len() == 32 && s.chars().all(|c| c.is_ascii_digit() || ('a'..='f').contains(&c))
}

#[test]
fn plan_mode_on_makes_an_id_and_reminds_once() {
    let mut st = PlanState::new(false, None, None);
    assert!(st.set_plan_mode(true));
    assert!(st.plan_mode);
    let id = st.plan_session_id.clone().unwrap();
    assert!(is_hex_id(&id));
    assert!(st.consume_pending_plan_activation_injection());
    assert!(!st.consume_pending_plan_activation_injection());
    assert_eq!(st.get_plan_file_path("/share"), Some(format!("/share/plans/{id}.md")));
}

#[test]
fn plan_mode_keeps_existing_id_and_forgets_on_off() {
    let mut st = PlanState::new(false, Some("abc".into()), Some("slug".into()));
    assert!(st.toggle_plan_mode());
    assert_eq!(st.plan_session_id.as_deref(), Some("abc"));
    assert_eq!(st.plan_slug.as_deref(), Some("slug"));
    assert!(!st.toggle_plan_mode());
    assert!(!st.plan_mode);
    assert!(st.plan_session_id.is_none());
    assert!(st.plan_slug.is_none());
    assert!(!st.pending_plan_activation_injection);
    assert_eq!(st.get_plan_file_path("/share"), None);
}

#[test]
fn plan_mode_same_request_changes_nothing() {
    let mut st = PlanState::new(true, Some("x".into()), None);
    assert!(st.set_plan_mode(true));
    assert!(!st.pending_plan_activation_injection);
    st.schedule_plan_activation_reminder();
    assert!(st.pending_plan_activation_injection);
    let mut off = PlanState::new(false, None, None);
    off.schedule_plan_activation_reminder();
    assert!(!off.pending_plan_activation_injection);
    assert!(!off.consume_pending_plan_activation_injection());
}

#[test]
fn gate_runs_in_yolo_mode() {
    let mut rt = ApprovalRuntime::new();
    rt.add_deny_pattern("*");
    assert!(matches!(gate_tool_call(true, Some(&rt), &call("Shell"), &serde_json::Value::Null), ToolGate::Run));
}

#[test]
fn gate_follows_rules() {
    let mut rt = ApprovalRuntime::new();
    rt.add_auto_approve_pattern("Read*");
    rt.add_deny_pattern("Shell");
    let args = serde_json::Value::Null;
    assert!(matches!(gate_tool_call(false, Some(&rt), &call("ReadFile"), &args), ToolGate::Run));
    assert!(matches!(gate_tool_call(false, Some(&rt), &call("Write"), &args), ToolGate::AskUser));
    assert!(matches!(gate_tool_call(false, None, &call("ReadFile"), &args), ToolGate::AskUser));
    match gate_tool_call(false, Some(&rt), &call("Shell"), &args) {
        ToolGate::Reject { result } => {
            assert_eq!(result.tool_call_id, "tc1");
            match result.return_value {
                ToolReturnValue::Error { error } => assert_eq!(
                    error,
                    "Tool use was denied by approval runtime: tool 'Shell' matched deny pattern 'Shell'"
                ),
                _ => panic!("expected an error"),
            }
        },
        _ => panic!("expected a rejection"),
    }
}

#[test]
fn user_answers() {
    let c = call("Shell");
    assert!(settle_user_answer(Some("approve"), &c).is_none());
    assert!(settle_user_answer(Some("APPROVE"), &c).is_none());
    let r = settle_user_answer(Some("reject"), &c).unwrap();
    assert!(matches!(&r.return_value, ToolReturnValue::Error { error } if error == "Tool use was rejected by user."));
    assert!(settle_user_answer(None, &c).is_some());
    let m = rejection_message(&r);
    assert_eq!(m.role, "tool");
    assert_eq!(m.tool_call_id.as_deref(), Some("tc1"));
    assert_eq!(m.extract_text(""), "Error: Tool use was rejected by user.");
}

#[test]
fn approval_description_names_call() {
    assert_eq!(approval_description(&call("Read")), "Call tool 'Read' with args: {\"path\":\"a\"}");
}

#[test]
fn slash_commands_split_at_first_space() {
    assert_eq!(parse_slash_command("/compact keep it short"), Some(("compact".into(), "keep it short".into())));
    assert_eq!(parse_slash_command("/clear"), Some(("clear".into(), "".into())));
    assert_eq!(parse_slash_command("hello /x"), None);
    assert_eq!(parse_slash_command(""), None);
    assert_eq!(slash_reply("clear").extract_text(""), "Executed /clear");
}

#[test]
fn input_text_runs_text_parts_together() {
    let parts = vec![
        ContentPart::Text { text: "/comp".into() },
        ContentPart::ImageUrl { url: "u".into() },
        ContentPart::Text { text: "act".into() },
    ];
    assert_eq!(input_text(&parts), "/compact");
}

#[test]
fn turn_end_and_title() {
    let history = vec![msg("user", "hi"), msg("assistant", "first"), msg("user", "more"), msg("tool", "t")];
    let last = final_assistant_message(&history).unwrap();
    assert_eq!(last.extract_text(""), "first");
    assert!(final_assistant_message(&vec![msg("user", "x")]).is_none());

    let long = msg("assistant", "abcdefghijklmnopqrstuvwxyz0123456789ABCDEFGH");
    let (title, attempts) = first_turn_title(0, Some(&long));
    assert_eq!(title.as_deref(), Some("abcdefghijklmnopqrstuvwxyz0123456789ABCD"));
    assert_eq!(attempts, 1);
    assert_eq!(first_turn_title(0, None), (None, 1));
    assert_eq!(first_turn_title(0, Some(&msg("assistant", ""))), (None, 1));
    assert_eq!(first_turn_title(2, Some(&long)), (None, 2));
}

#[test]
fn steps() {
    let mut reply = msg("assistant", "done");
    assert_eq!(step_stop(&reply), Some(TurnStopReason::NoToolCalls));
    reply.tool_calls = Some(vec![]);
    assert_eq!(step_stop(&reply), Some(TurnStopReason::NoToolCalls));
    reply.tool_calls = Some(vec![call("Read")]);
    assert_eq!(step_stop(&reply), None);
    assert_eq!(max_steps(0), 1);
    assert_eq!(max_steps(7), 7);
    assert_eq!(dmail_notice(3, "go back"), "Reverted to checkpoint 3: go back");
    assert_eq!(no_llm_reply().extract_text(""), "LLM client is not configured.");
}

#[test]
fn after_step_stops_reverts_or_goes_on() {
    let stop = kimi_cli_rs::soul::kimisoul::after_step(Some(TurnStopReason::NoToolCalls), None);
    assert!(matches!(stop, AfterStep::Stop(TurnStopReason::NoToolCalls)));
    let dmail = DMail { message: "try again".into(), checkpoint_id: 3 };
    match kimi_cli_rs::soul::kimisoul::after_step(None, Some(dmail)) {
        AfterStep::Revert { checkpoint_id, notice } => {
            assert_eq!(checkpoint_id, 3);
            assert_eq!(notice, "Reverted to checkpoint 3: try again");
        }
        other => panic!("unexpected {other:?}"),
    }
    assert!(matches!(kimi_cli_rs::soul::kimisoul::after_step(None, None), AfterStep::Next));
    assert_eq!(stop_reason_name(TurnStopReason::MaxStepsReached), "MaxStepsReached");
}

#[test]
fn a_step_records_the_reply_then_one_message_per_call() {
    let call = |id: &str| ToolCall { id: id.into(), name: "Shell".into(), arguments: "{}".into() };
    let reply = Message {
        role: "assistant".into(),
        content: vec![ContentPart::Text { text: "working".into() }],
        tool_calls: Some(vec![call("c1"), call("c2")]),
        tool_call_id: None,
    };
    let refused = kimi_cli_rs::soul::message::ToolResult {
        tool_call_id: "c1".into(),
        return_value: ToolReturnValue::Error { error: "Tool use was rejected by user.".into() },
    };
    let ran = kimi_cli_rs::soul::message::ToolResult {
        tool_call_id: "c2".into(),
        return_value: ToolReturnValue::Success { output: "ok".into(), message: None },
    };
    let (msgs, stop) = step_messages(reply, vec![CallOutcome::Refused(refused), CallOutcome::Ran(ran)]);
    assert!(stop.is_none());
    assert_eq!(msgs.len(), 3);
    assert_eq!(msgs[0].role, "assistant");
    assert_eq!(msgs[1].tool_call_id.as_deref(), Some("c1"));
    assert!(matches!(&msgs[1].content[..], [ContentPart::Text { text }] if text == "Error: Tool use was rejected by user."));
    assert_eq!(msgs[2].tool_call_id.as_deref(), Some("c2"));
    let plain = Message {
        role: "assistant".into(),
        content: vec![ContentPart::Text { text: "done".into() }],
        tool_calls: None,
        tool_call_id: None,
    };
    let (msgs, stop) = step_messages(plain, Vec::new());
    assert_eq!(msgs.len(), 1);
    assert_eq!(stop, Some(TurnStopReason::NoToolCalls));
}
