use kimi_cli_rs::background::{
    admit_spawn, agent_task_command, agent_timeout, new_agent_task_id, new_task_id, output_chunk, settle_agent_result,
    shell_args, summarize, task_output, timed_out_result, BackgroundTaskStore,
    get_task, killed_record, list_tasks, stopped_record, TaskRecord,
};
use kimi_cli_rs::soul::message::{ContentPart, ToolReturnValue};

fn is_uuid(s: &str) -> bool {
    let b: Vec<char> = s.chars().collect();
    b.len() == 36
        && b.iter().enumerate().all(|(i, c)| {
            if [8, 13, 18, 23].contains(&i) {
                *c == '-'
            } else {
                c.is_ascii_digit() || ('a'..='f').contains(c)
            }
        })
        && b[14] == '4'
}

#[test]
fn background_manager_enforces_max_tasks() {
    assert!(admit_spawn(0, 1).is_ok());
    let err = admit_spawn(1, 1).unwrap_err();
    assert_eq!(err.to_string(), "generic error: Maximum number of running background tasks (1) reached");
    assert!(admit_spawn(5, 4).is_err());
}

#[test]
fn shell_arguments() {
    assert_eq!(shell_args("ls -la", false), vec!["-c".to_string(), "ls -la".to_string()]);
    assert_eq!(shell_args("dir", true), vec!["-command".to_string(), "dir".to_string()]);
}

#[test]
fn task_ids_are_prefixed_uuids() {
    let id = new_task_id();
    assert!(id.starts_with("bg-"));
    assert!(is_uuid(&id[3..]));
    let other = new_task_id();
    assert_ne!(id, other);
    let a = new_agent_task_id("coder");
    assert!(a.starts_with("agent-coder-"));
    assert!(is_uuid(&a["agent-coder-".len()..]));
    assert_eq!(agent_task_command("fix bug"), "agent: fix bug");
}

#[test]
fn agent_timeouts() {
    assert_eq!(agent_timeout(None), None);
    assert_eq!(agent_timeout(Some(10)), Some(10));
    assert_eq!(agent_timeout(Some(99999)), Some(3600));
    let (ret, reason) = timed_out_result(30);
    assert!(matches!(ret, ToolReturnValue::Error { error } if error == "Agent timed out after 30s."));
    assert_eq!(reason, "Timed out after 30s");
}

#[test]
fn agent_results_settle() {
    let ok = settle_agent_result(&ToolReturnValue::Success { output: "out".into(), message: None }, None);
    assert_eq!((ok.stdout.as_str(), ok.stderr.as_str(), ok.exit_code), ("out", "", Some(0)));
    assert!(ok.failure_reason.is_none());

    let parts = ToolReturnValue::Parts {
        parts: vec![
            ContentPart::Text { text: "a".into() },
            ContentPart::ImageUrl { url: "img".into() },
            ContentPart::Think { thought: "b".into() },
        ],
    };
    let p = settle_agent_result(&parts, None);
    assert_eq!(p.stdout, "a\nb");
    assert_eq!(p.exit_code, Some(0));

    let e = settle_agent_result(&ToolReturnValue::Error { error: "boom".into() }, None);
    assert_eq!((e.stdout.as_str(), e.stderr.as_str(), e.exit_code), ("", "boom", Some(1)));
    assert_eq!(e.failure_reason.as_deref(), Some("boom"));

    let t = settle_agent_result(&ToolReturnValue::Error { error: "late".into() }, Some("Timed out after 5s".into()));
    assert_eq!(t.failure_reason.as_deref(), Some("Timed out after 5s"));
}

#[test]
fn output_joins_streams() {
    assert_eq!(task_output("o", ""), "o");
    assert_eq!(task_output("o", "e"), "o\ne");
}

#[test]
fn output_chunks() {
    let c = output_chunk("hello world", 6, 3);
    assert_eq!(c.text, "wor");
    assert_eq!((c.offset, c.next_offset), (6, 9));
    let end = output_chunk("hello", 10, 4);
    assert_eq!(end.text, "");
    assert_eq!(end.next_offset, 5);
    let cut = output_chunk("héllo", 0, 2);
    assert_eq!(cut.text, "h\u{FFFD}");
    assert_eq!(cut.next_offset, 2);
}

#[test]
fn store_paths_and_summary() {
    let store = BackgroundTaskStore::new("/s/bg");
    assert_eq!(store.store_path(), "/s/bg/background_tasks.json");
    assert_eq!(store.output_path("bg-1"), "/s/bg/logs/bg-1.log");
    assert_eq!(summarize("bg-1", false, Some(0), "ls"), "bg-1 [completed] ls");
    assert_eq!(summarize("bg-2", true, None, "sleep"), "bg-2 [running] sleep");
    assert_eq!(summarize("bg-3", false, Some(2), "x"), "bg-3 [failed] x");
}

fn task(id: &str, running: bool) -> TaskRecord {
    TaskRecord {
        id: id.into(),
        command: format!("run {id}"),
        created_at: 1.5f64.to_bits(),
        exit_code: if running { None } else { Some(0) },
        running,
        failure_reason: None,
    }
}

#[test]
fn listings_merge_live_and_stored_tasks() {
    let live = vec![task("a", true), task("b", false)];
    let stored = vec![task("b", true), task("c", false)];
    let all: Vec<String> = list_tasks(&live, &stored, false).into_iter().map(|t| t.id).collect();
    assert_eq!(all, vec!["a", "b", "c"]);
    let full = list_tasks(&live, &stored, false);
    assert!(!full[1].running);
    let active: Vec<String> = list_tasks(&live, &stored, true).into_iter().map(|t| t.id).collect();
    assert_eq!(active, vec!["a"]);
}

#[test]
fn lookups_prefer_live_tasks() {
    let live = vec![task("a", true)];
    let stored = vec![task("a", false), task("c", false)];
    assert!(get_task(&live, &stored, "a").unwrap().running);
    assert_eq!(get_task(&live, &stored, "c").unwrap().command, "run c");
    assert!(get_task(&live, &stored, "zz").is_none());
}

#[test]
fn killed_tasks_record_their_reason() {
    let k = killed_record(&task("a", true), "Timed out");
    assert!(!k.running);
    assert_eq!(k.failure_reason.as_deref(), Some("Timed out"));
    assert_eq!(k.created_at, 1.5f64.to_bits());
    let s = stopped_record(&task("a", true));
    assert_eq!(s.failure_reason.as_deref(), Some("Stopped by TaskStop"));
}
