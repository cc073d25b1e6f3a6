use kimi_cli_rs::soul::context::{Context, ContextRecord};
use kimi_cli_rs::soul::message::{ContentPart, Message};

fn message(role: &str, text: &str) -> Message {
    Message {
        role: role.into(),
        content: vec![ContentPart::Text { text: text.into() }],
        tool_calls: None,
        tool_call_id: None,
    }
}

fn record_text(r: &Option<ContextRecord>) -> String {
    match r {
        Some(ContextRecord::Message { message }) => message.extract_text(""),
        Some(ContextRecord::Checkpoint { id }) => format!("checkpoint {:?}", id),
        Some(ContextRecord::Usage { token_count }) => format!("usage {:?}", token_count),
        Some(ContextRecord::SystemPrompt { content }) => format!("prompt {:?}", content),
        None => String::new(),
    }
}

#[test]
fn checkpoint_increments_id() {
    let mut ctx = Context::new("context.jsonl".into());
    assert_eq!(ctx.next_checkpoint_id(), 0);
    let r0 = ctx.checkpoint();
    assert_eq!(ctx.next_checkpoint_id(), 1);
    let r1 = ctx.checkpoint();
    assert_eq!(ctx.next_checkpoint_id(), 2);
    assert!(matches!(r0, ContextRecord::Checkpoint { id: Some(0) }));
    assert!(matches!(r1, ContextRecord::Checkpoint { id: Some(1) }));
}

#[test]
fn revert_to_checkpoint_truncates_file() {
    let mut ctx = Context::new("context.jsonl".into());
    let mut file: Vec<Option<ContextRecord>> = Vec::new();

    file.push(Some(ctx.append_message(&message("user", "hello"))));
    file.push(Some(ctx.checkpoint()));
    file.push(Some(ctx.append_message(&message("assistant", "world"))));
    file.push(Some(ctx.checkpoint()));
    file.push(Some(ctx.append_message(&message("user", "after"))));

    assert_eq!(ctx.history().len(), 3);
    assert_eq!(ctx.next_checkpoint_id(), 2);

    let kept = ctx.revert_to_checkpoint(&file, 0);

    // After revert to checkpoint 0, only msg1 and the first checkpoint remain.
    assert_eq!(kept, Some(2));
    assert_eq!(ctx.history().len(), 1);
    assert_eq!(ctx.next_checkpoint_id(), 1);
    let text: Vec<String> = file[..kept.unwrap()].iter().map(record_text).collect();
    let text = text.join("\n");
    assert!(text.contains("hello"));
    assert!(!text.contains("world"));
    assert!(!text.contains("after"));
}

#[test]
fn revert_to_missing_checkpoint_is_noop() {
    let mut ctx = Context::new("context.jsonl".into());
    let mut file: Vec<Option<ContextRecord>> = Vec::new();
    file.push(Some(ctx.append_message(&message("user", "hi"))));
    assert_eq!(ctx.revert_to_checkpoint(&file, 99), None);
    assert_eq!(ctx.history().len(), 1);
}

#[test]
fn restore_replays_written_records() {
    let mut ctx = Context::new("c.jsonl".into());
    let mut file: Vec<Option<ContextRecord>> = Vec::new();
    file.push(Some(ctx.write_system_prompt("be brief")));
    file.push(Some(ctx.append_message(&message("user", "q"))));
    file.push(Some(ctx.checkpoint()));
    file.push(Some(ctx.update_token_count(42)));
    file.push(None);
    file.push(Some(ctx.append_message(&message("assistant", "a"))));

    let mut back = Context::new("c.jsonl".into());
    assert!(back.restore(&file).is_ok());
    assert_eq!(back.history().len(), 2);
    assert_eq!(back.history()[1].extract_text(""), "a");
    assert_eq!(back.next_checkpoint_id(), 1);
    assert_eq!(back.token_count(), 42);
    assert_eq!(back.system_prompt(), Some("be brief"));
    assert_eq!(ctx.history().len(), back.history().len());
}

#[test]
fn restore_refused_after_changes() {
    let mut ctx = Context::new("c.jsonl".into());
    assert!(ctx.restore(&Vec::new()).is_ok());
    ctx.append_message(&message("user", "x"));
    let err = ctx.restore(&Vec::new()).unwrap_err();
    assert_eq!(
        err.to_string(),
        "generic error: Context has already been modified; restore is not allowed."
    );
    assert_eq!(ctx.history().len(), 1);
}

#[test]
fn pending_estimate_counts_bytes_in_quarters() {
    let mut ctx = Context::new("c.jsonl".into());
    ctx.update_token_count(10);
    ctx.append_message(&message("user", "hello"));
    // 5 bytes -> 2 tokens
    assert_eq!(ctx.token_count_with_pending(), 12);
    ctx.append_message(&Message {
        role: "user".into(),
        content: vec![ContentPart::Text { text: "ab".into() }, ContentPart::Text { text: "cd".into() }],
        tool_calls: None,
        tool_call_id: None,
    });
    // "ab cd" = 5 bytes -> 2 tokens
    assert_eq!(ctx.token_count_with_pending(), 14);
    ctx.update_token_count(3);
    assert_eq!(ctx.token_count_with_pending(), 3);
}

#[test]
fn clear_forgets_everything() {
    let mut ctx = Context::new("c.jsonl".into());
    ctx.append_message(&message("user", "x"));
    ctx.checkpoint();
    ctx.clear();
    assert_eq!(ctx.history().len(), 0);
    assert_eq!(ctx.next_checkpoint_id(), 0);
    assert_eq!(ctx.file_backend(), "c.jsonl");
}
