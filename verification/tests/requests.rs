use kimi_cli_rs::approval_runtime::{ApprovalRuntime, ApprovalSource};
use kimi_cli_rs::error::KimiCliError;

fn create(rt: &mut ApprovalRuntime, id: &str, action: &str, turn: &str, now: u64) {
    rt.create_request(
        id.into(),
        "tc".into(),
        "agent".into(),
        action.into(),
        "desc".into(),
        Vec::new(),
        ApprovalSource::foreground_turn(turn.into()),
        now,
    );
}

#[test]
fn request_is_resolved_once() {
    let mut rt = ApprovalRuntime::new();
    let rec = rt.create_request(
        "r1".into(),
        "tc1".into(),
        "main".into(),
        "run".into(),
        "Run it".into(),
        vec![serde_json::Value::Bool(true)],
        ApprovalSource::foreground_turn("t1".into()),
        10,
    );
    assert_eq!(rec.status, "pending");
    assert_eq!(rec.display.len(), 1);
    assert!(matches!(rt.response_state("r1"), Ok(None)));
    assert!(rt.resolve("r1", "approve", "ok", 20));
    assert!(!rt.resolve("r1", "reject", "", 30));
    let got = rt.get_request("r1").unwrap();
    assert_eq!(got.status, "resolved");
    assert_eq!(got.response.as_deref(), Some("approve"));
    assert_eq!(got.resolved_at, Some(20));
    match rt.response_state("r1") {
        Ok(Some((r, f))) => assert_eq!((r.as_str(), f.as_str()), ("approve", "ok")),
        _ => panic!("expected an answer"),
    }
}

#[test]
fn cancelled_and_unknown_requests() {
    let mut rt = ApprovalRuntime::new();
    create(&mut rt, "r1", "run", "t1", 1);
    assert!(rt.cancel_request("r1", "approval timed out", 5));
    assert!(!rt.cancel_request("r1", "", 6));
    assert!(!rt.resolve("r1", "approve", "", 7));
    assert!(matches!(rt.response_state("r1"), Err(KimiCliError::ApprovalCancelled)));
    let got = rt.get_request("r1").unwrap();
    assert_eq!(got.response.as_deref(), Some("reject"));
    assert_eq!(got.feedback, "approval timed out");
    match rt.response_state("nope") {
        Err(e) => assert_eq!(e.to_string(), "generic error: Approval request not found: nope"),
        _ => panic!("expected an error"),
    }
    assert!(rt.get_request("nope").is_none());
}

#[test]
fn pending_are_listed_oldest_first() {
    let mut rt = ApprovalRuntime::new();
    create(&mut rt, "c", "run", "t1", 30);
    create(&mut rt, "a", "run", "t1", 10);
    create(&mut rt, "b", "edit", "t2", 20);
    create(&mut rt, "d", "run", "t1", 20);
    rt.resolve("d", "approve", "", 40);
    let ids: Vec<String> = rt.list_pending().into_iter().map(|r| r.id).collect();
    assert_eq!(ids, vec!["a".to_string(), "b".to_string(), "c".to_string()]);
}

#[test]
fn cancel_by_source_counts() {
    let mut rt = ApprovalRuntime::new();
    create(&mut rt, "a", "run", "t1", 1);
    create(&mut rt, "b", "run", "t2", 2);
    create(&mut rt, "c", "run", "t1", 3);
    rt.resolve("c", "approve", "", 4);
    assert_eq!(rt.cancel_by_source("foreground_turn", "t1", 5), 1);
    assert_eq!(rt.get_request("a").unwrap().status, "cancelled");
    assert_eq!(rt.get_request("b").unwrap().status, "pending");
    assert_eq!(rt.get_request("c").unwrap().status, "resolved");
    assert_eq!(rt.cancel_by_source("foreground_turn", "t1", 6), 0);
}

#[test]
fn approving_an_action_for_the_session() {
    let mut rt = ApprovalRuntime::new();
    create(&mut rt, "a", "run", "t1", 1);
    create(&mut rt, "b", "edit", "t1", 2);
    rt.approve_pending_for_action("run", 3);
    assert_eq!(rt.get_request("a").unwrap().response.as_deref(), Some("approve"));
    assert_eq!(rt.get_request("b").unwrap().status, "pending");
}

#[test]
fn recreating_replaces() {
    let mut rt = ApprovalRuntime::new();
    create(&mut rt, "a", "run", "t1", 1);
    rt.resolve("a", "approve", "", 2);
    create(&mut rt, "a", "edit", "t1", 3);
    let got = rt.get_request("a").unwrap();
    assert_eq!((got.status.as_str(), got.action.as_str()), ("pending", "edit"));
    assert_eq!(rt.list_pending().len(), 1);
}
