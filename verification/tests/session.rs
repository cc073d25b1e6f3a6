use kimi_cli_rs::metadata::{Metadata, WorkDirMeta};
use kimi_cli_rs::session::{has_history, session_is_empty};

#[test]
fn internal_records_are_not_history() {
    let text = "{\"role\":\"_checkpoint\",\"id\":0}\n\n  {\"role\":\"_usage\",\"token_count\":3}\nnot json\n";
    assert!(!has_history(text));
    assert!(has_history("{\"role\":\"_checkpoint\",\"id\":0}\n{\"role\":\"user\",\"content\":\"hi\"}\n"));
    assert!(has_history("{\"role\":\"\"}"));
}

#[test]
fn empty_sessions() {
    assert!(session_is_empty(false, true, None));
    assert!(session_is_empty(false, true, Some("")));
    assert!(!session_is_empty(true, true, None));
    assert!(!session_is_empty(false, false, None));
    assert!(!session_is_empty(false, true, Some("{\"role\":\"assistant\"}")));
}

#[test]
fn recording_a_session_updates_or_adds_the_work_dir() {
    let mut m = Metadata {
        work_dirs: vec![WorkDirMeta { path: "/a".into(), kaos: "ssh".into(), last_session_id: None }],
    };
    assert_eq!(m.record_session("/a".into(), "s1".into()), 0);
    assert_eq!(m.work_dirs.len(), 1);
    assert_eq!(m.work_dirs[0].kaos, "ssh");
    assert_eq!(m.work_dirs[0].last_session_id.as_deref(), Some("s1"));
    assert_eq!(m.record_session("/b".into(), "s2".into()), 1);
    assert_eq!(m.work_dirs[1].path, "/b");
    assert_eq!(m.work_dirs[1].kaos, "local");
    assert_eq!(m.work_dirs[1].last_session_id.as_deref(), Some("s2"));
}
