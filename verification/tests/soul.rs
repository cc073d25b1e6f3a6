use kimi_cli_rs::config::ModelCapability;
use kimi_cli_rs::error::ToolRejectedError;
use kimi_cli_rs::soul::approval::{read_approval_response, ApprovalResult, ApprovalState};
use kimi_cli_rs::soul::compaction::{estimate_text_tokens, CompactionResult, SimpleCompaction, TokenUsage};
use kimi_cli_rs::soul::denwa_renji::{DMail, DenwaRenji};
use kimi_cli_rs::soul::dynamic_injection::{
    normalize_history, DynamicInjectionProvider, InjectionContext, PlanModeInjectionProvider,
    YoloModeInjectionProvider,
};
use kimi_cli_rs::soul::message::{
    check_message, is_system_reminder_message, system, system_reminder, tool_result_to_message,
    ContentPart, Message, ToolResult, ToolReturnValue,
};
use kimi_cli_rs::soul::slash::{default_registry, SlashCommand, SlashCommandRegistry};
use kimi_cli_rs::soul::{TurnOutcome, TurnStopReason};

fn text(t: &str) -> ContentPart {
    ContentPart::Text { text: t.to_string() }
}

fn msg(role: &str, parts: Vec<ContentPart>) -> Message {
    Message { role: role.to_string(), content: parts, tool_calls: None, tool_call_id: None }
}

fn text_of(p: &ContentPart) -> &str {
    match p {
        ContentPart::Text { text } => text,
        _ => panic!("not a text part"),
    }
}

#[test]
fn system_wrappers() {
    assert_eq!(text_of(&system("hi".to_string())), "<system>hi</system>");
    assert_eq!(text_of(&system_reminder("hi".to_string())), "<system-reminder>\nhi\n</system-reminder>");
    let m = msg("user", vec![system_reminder("x".to_string())]);
    assert!(is_system_reminder_message(&m));
    assert!(!is_system_reminder_message(&msg("assistant", vec![system_reminder("x".to_string())])));
    assert!(!is_system_reminder_message(&msg("user", vec![text("plain")])));
}

#[test]
fn extract_text_joins_text_parts() {
    let m = msg("user", vec![text("a"), ContentPart::Think { thought: "t".into() }, text("b")]);
    assert_eq!(m.extract_text("\n"), "a\nb");
    assert_eq!(m.extract_text(""), "ab");
    let v = ToolReturnValue::Parts {
        parts: vec![text("x"), ContentPart::ImageUrl { url: "u".into() }, ContentPart::VideoUrl { url: "v".into() }],
    };
    assert_eq!(v.extract_text(), "x\n[Image: u]\n[Video: v]");
    assert_eq!(ToolReturnValue::Error { error: "bad".into() }.extract_text(), "Error: bad");
}

#[test]
fn tool_results_become_messages() {
    let r = ToolResult {
        tool_call_id: "c1".into(),
        return_value: ToolReturnValue::Success { output: String::new(), message: None },
    };
    let m = tool_result_to_message(&r);
    assert_eq!(m.role, "tool");
    assert_eq!(m.tool_call_id.as_deref(), Some("c1"));
    assert_eq!(m.content.len(), 1);
    assert_eq!(text_of(&m.content[0]), "<system>Tool output is empty.</system>");
    let r = ToolResult {
        tool_call_id: "c2".into(),
        return_value: ToolReturnValue::Parts { parts: vec![ContentPart::ImageUrl { url: "u".into() }] },
    };
    let m = tool_result_to_message(&r);
    assert_eq!(m.content.len(), 2);
    assert_eq!(text_of(&m.content[0]), "<system>Tool returned non-text content.</system>");
    let r = ToolResult {
        tool_call_id: "c3".into(),
        return_value: ToolReturnValue::Error { error: "boom".into() },
    };
    assert_eq!(text_of(&tool_result_to_message(&r).content[0]), "<system>ERROR: boom</system>");
    let r = ToolResult {
        tool_call_id: "c4".into(),
        return_value: ToolReturnValue::Success { output: "out".into(), message: Some("note".into()) },
    };
    let m = tool_result_to_message(&r);
    assert_eq!(text_of(&m.content[0]), "<system>note</system>");
    assert_eq!(text_of(&m.content[1]), "out");
}

#[test]
fn check_message_reports_missing_capabilities() {
    let m = msg("user", vec![ContentPart::ImageUrl { url: "u".into() }, ContentPart::Think { thought: "t".into() }]);
    let missing = check_message(&m, &vec![ModelCapability::ImageIn]);
    assert_eq!(missing, vec![ModelCapability::Thinking]);
    assert!(check_message(&msg("user", vec![text("x")]), &vec![]).is_empty());
}

#[test]
fn normalize_history_merges_adjacent_user_messages() {
    let history = vec![
        msg("user", vec![text("a")]),
        msg("user", vec![text("b")]),
        msg("assistant", vec![text("c")]),
        msg("user", vec![text("d")]),
        msg("user", vec![text("notify")]),
    ];
    let out = normalize_history(&history, |m: &Message| m.extract_text("") == "notify");
    assert_eq!(out.len(), 4);
    assert_eq!(out[0].extract_text(","), "a,b");
    assert_eq!(out[2].extract_text(""), "d");
    assert_eq!(out[3].extract_text(""), "notify");
    assert!(normalize_history(&[], |_m: &Message| false).is_empty());
}

#[test]
fn injections_follow_modes() {
    let ctx = InjectionContext { plan_mode: true, yolo: false };
    let plan = PlanModeInjectionProvider.get_injections(&[], &ctx);
    assert_eq!(plan.len(), 1);
    assert_eq!(plan[0].injection_type, "plan_mode");
    assert!(YoloModeInjectionProvider.get_injections(&[], &ctx).is_empty());
}

#[test]
fn dmail_send_and_fetch() {
    let mut booth = DenwaRenji::default();
    let err = booth.send_dmail(DMail { message: "m".into(), checkpoint_id: 0 }).unwrap_err();
    assert_eq!(err.to_string(), "generic error: There is no checkpoint with the given ID");
    booth.set_n_checkpoints(2);
    booth.send_dmail(DMail { message: "back".into(), checkpoint_id: 1 }).unwrap();
    let err = booth.send_dmail(DMail { message: "again".into(), checkpoint_id: 0 }).unwrap_err();
    assert_eq!(err.to_string(), "generic error: Only one D-Mail can be sent at a time");
    let d = booth.fetch_pending_dmail().unwrap();
    assert_eq!(d.message, "back");
    assert_eq!(d.checkpoint_id, 1);
    assert!(booth.fetch_pending_dmail().is_none());
}

#[test]
fn approval_results_and_state() {
    let r = ApprovalResult::new(false, "too risky".to_string());
    let e = r.rejection_error();
    assert!(e.has_feedback);
    assert_eq!(e.brief, "Rejected: too risky");
    assert_eq!(e.message, "The tool call is rejected by the user. User feedback: too risky");
    let e = ApprovalResult::from_bool(false).rejection_error();
    assert!(!e.has_feedback);
    assert_eq!(e.brief, "Rejected by user");
    assert_eq!(e.to_string(), ToolRejectedError::default().message);
    let mut st: ApprovalState<fn()> = ApprovalState::new(false, vec!["a".into(), "a".into(), "b".into()], None);
    assert_eq!(st.auto_approve_actions.len(), 2);
    assert!(st.is_auto_approved(&"a".to_string()));
    assert!(!st.is_auto_approved(&"c".to_string()));
    st.approve_for_session("c".into());
    assert!(st.is_auto_approved(&"c".to_string()));
    st.notify_change();
    let (res, session) = read_approval_response("approve_for_session", "");
    assert!(res.approved && session);
    let (res, session) = read_approval_response("reject", "no");
    assert!(!res.approved && !session);
    assert_eq!(res.feedback, "no");
    let (res, _) = read_approval_response("???", "x");
    assert!(!res.approved);
    assert_eq!(res.feedback, "");
}

#[test]
fn rejection_builders() {
    let e = ToolRejectedError::new("m".into()).with_brief("b".into());
    assert_eq!(e.brief, "b");
    assert_eq!(e.message, "m");
    let s = ToolRejectedError::for_subagent();
    assert!(s.message.starts_with("The tool call is rejected by the user. Try a different approach"));
    assert_eq!(s.brief, "Rejected by user");
}

#[test]
fn token_estimates() {
    let ms = vec![msg("user", vec![text("abcde"), ContentPart::ImageUrl { url: "xxxxxxxx".into() }])];
    assert_eq!(estimate_text_tokens(&ms), 2);
    assert_eq!(estimate_text_tokens(&[msg("user", vec![text("é")])]), 1);
    let r = CompactionResult {
        messages: vec![msg("user", vec![text("summary text")]), msg("user", vec![text("abcd")])],
        usage: Some(TokenUsage { input: 0, output: 10 }),
    };
    assert_eq!(r.estimated_token_count(), 11);
    let r = CompactionResult { messages: vec![msg("user", vec![text("abcd")])], usage: None };
    assert_eq!(r.estimated_token_count(), 1);
}

#[test]
fn prepare_compaction_splits_history() {
    let history = vec![
        msg("user", vec![text("q1")]),
        msg("assistant", vec![text("a1")]),
        msg("tool", vec![text("t")]),
        msg("user", vec![text("q2")]),
        msg("assistant", vec![text("a2")]),
    ];
    let c = SimpleCompaction::default();
    let (compact, keep) = c.prepare(&history, "focus");
    assert_eq!(keep.len(), 2);
    assert_eq!(keep[0].extract_text(""), "q2");
    let compact = compact.unwrap();
    assert_eq!(compact.role, "user");
    assert_eq!(text_of(&compact.content[0]), "## Message 1\nRole: user\nContent:\n");
    assert_eq!(text_of(&compact.content[1]), "q1");
    assert_eq!(
        text_of(compact.content.last().unwrap()),
        "\nCompact the above conversation context into a concise summary.\n\n**User's Custom Compaction Instruction:**\nfocus"
    );
    let (none, all) = SimpleCompaction::new(0).prepare(&history, "");
    assert!(none.is_none());
    assert_eq!(all.len(), 5);
    let (none, all) = SimpleCompaction::new(9).prepare(&history, "");
    assert!(none.is_none());
    assert_eq!(all.len(), 5);
}

#[test]
fn slash_registry() {
    let reg: SlashCommandRegistry<u8> = default_registry(|name: &str| name.len() as u8);
    assert_eq!(reg.list().len(), 8);
    let plan = reg.get("plan").unwrap();
    assert_eq!(plan.description, "Toggle plan mode. Usage: /plan [on|off|view|clear]");
    assert_eq!(plan.handler, 4);
    assert!(reg.get("nope").is_none());
    assert!(reg.get("help").is_none());
    let mut reg = reg;
    reg.register(SlashCommand { name: "plan".into(), description: "new".into(), handler: 0 });
    assert_eq!(reg.get("plan").unwrap().description, "new");
    assert_eq!(reg.into_commands().len(), 8);
}

#[test]
fn turn_outcome() {
    let t = TurnOutcome::cancelled();
    assert_eq!(t.stop_reason, TurnStopReason::Cancelled);
    assert_eq!(t.step_count, 0);
}

#[test]
fn notify_change_runs_the_callback_once() {
    let calls = std::cell::Cell::new(0);
    let cb = || calls.set(calls.get() + 1);
    let st = ApprovalState::new(true, vec!["x".into()], Some(cb));
    st.notify_change();
    assert_eq!(calls.get(), 1);
    assert!(st.yolo);
    assert_eq!(st.auto_approve_actions, vec!["x".to_string()]);
}
