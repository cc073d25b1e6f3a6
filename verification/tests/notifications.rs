use kimi_cli_rs::notifications::{Notification, NotificationStore, Notifier};
use std::cell::Cell;

fn note(title: &str, body: &str) -> Notification {
    Notification { title: title.into(), body: body.into(), channel: "desktop".into() }
}

#[test]
fn loaded_notifications_are_ordered_by_title() {
    let loaded = vec![note("b", "1"), note("a", "2"), note("b", "3"), note("B", "4")];
    let sorted = NotificationStore::sort_loaded(loaded);
    let seen: Vec<(String, String)> = sorted.into_iter().map(|n| (n.title, n.body)).collect();
    assert_eq!(
        seen,
        vec![
            ("B".to_string(), "4".to_string()),
            ("a".to_string(), "2".to_string()),
            ("b".to_string(), "1".to_string()),
            ("b".to_string(), "3".to_string()),
        ]
    );
}

#[test]
fn notify_reaches_each_registered_handler_once() {
    let first = Cell::new(0);
    let second = Cell::new(0);
    let replaced = Cell::new(0);
    {
        let mut nt: Notifier<Box<dyn Fn(&Notification) + '_>> = Notifier::default();
        nt.register("a", Box::new(|_n: &Notification| replaced.set(replaced.get() + 1)));
        nt.register("b", Box::new(|_n: &Notification| second.set(second.get() + 1)));
        nt.register("a", Box::new(|n: &Notification| {
            assert_eq!(n.title, "t");
            first.set(first.get() + 1)
        }));
        nt.notify(&note("t", "b"));
    }
    assert_eq!((first.get(), second.get(), replaced.get()), (1, 1, 0));
}
