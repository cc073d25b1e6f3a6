//! User notifications: the record, the summary the LLM reads, delivery to
//! registered handlers, and where records are stored.
use crate::text::{append_vec, chars_of, eq_vec, join_path, lemma_text_lt_asym, lemma_text_lt_trans, path_join, string_of, text_lt, text_lt_exec};
use vstd::prelude::*;

verus! {

/// A single user notification.
#[derive(Debug, Clone)]
pub struct Notification {
    pub title: String,
    pub body: String,
    pub channel: String,
}

/// LLM sink for notifications.
#[derive(Debug, Clone, Default)]
pub struct LlmNotificationSink;

impl LlmNotificationSink {
    /// A summary the LLM reads, for notifications of the `system` channel.
    pub fn absorb(&self, notification: &Notification) -> (r: Option<String>)
        ensures
            notification.channel@ == "system"@ ==> (r matches Some(s) && s@ == "[system] "@
                + notification.title@ + ": "@ + notification.body@),
            notification.channel@ != "system"@ ==> r is None,
    {
        if eq_vec(&chars_of(notification.channel.as_str()), &chars_of("system")) {
            let mut v = chars_of("[system] ");
            append_vec(&mut v, &chars_of(notification.title.as_str()));
            append_vec(&mut v, &chars_of(": "));
            append_vec(&mut v, &chars_of(notification.body.as_str()));
            Some(string_of(&v))
        } else {
            None
        }
    }
}

/// Delivery of notifications to named handlers; a name is registered once,
/// a later registration replacing the earlier handler.
pub struct Notifier<H> {
    pub handlers: Vec<(String, H)>,
}

impl<H> Default for Notifier<H> {
    fn default() -> (r: Self)
        ensures
            r.handlers@.len() == 0,
    {
        Notifier { handlers: Vec::new() }
    }
}

impl<H: Fn(&Notification)> Notifier<H> {
    /// Registers a delivery handler under a name.
    pub fn register(&mut self, name: &str, handler: H)
        ensures
            ({
                let old_h = old(self).handlers@;
                let new_h = final(self).handlers@;
                if exists|i: int| 0 <= i < old_h.len() && old_h[i].0@ == name@ {
                    exists|i: int|
                        0 <= i < old_h.len() && old_h[i].0@ == name@ && new_h.len() == old_h.len()
                            && new_h[i].0@ == name@ && new_h[i].1 == handler && forall|j: int|
                            0 <= j < new_h.len() && j != i ==> new_h[j] == old_h[j]
                } else {
                    new_h.len() == old_h.len() + 1 && new_h[old_h.len() as int].0@ == name@
                        && new_h[old_h.len() as int].1 == handler && forall|j: int|
                        0 <= j < old_h.len() ==> new_h[j] == old_h[j]
                }
            }),
    {
        let n = chars_of(name);
        let mut i: usize = 0;
        while i < self.handlers.len()
            invariant
                i <= self.handlers.len(),
                n@ == name@,
                self.handlers@ == old(self).handlers@,
                forall|j: int| 0 <= j < i ==> self.handlers@[j].0@ != name@,
            decreases self.handlers.len() - i,
        {
            if eq_vec(&chars_of(self.handlers[i].0.as_str()), &n) {
                let mut hs: Vec<(String, H)> = Vec::new();
                std::mem::swap(&mut hs, &mut self.handlers);
                let ghost old_h = hs@;
                assert(old_h[i as int].0@ == name@);
                hs.set(i, (name.to_string(), handler));
                self.handlers = hs;
                assert(self.handlers@ == old_h.update(i as int, self.handlers@[i as int]));
                return;
            }
            i += 1;
        }
        self.handlers.push((name.to_string(), handler));
    }

    /// Delivers a notification to every registered handler, in order: each
    /// handler is called with it.
    pub fn notify(&self, notification: &Notification)
        requires
            forall|i: int| 0 <= i < self.handlers@.len() ==> (#[trigger] self.handlers@[i]).1.requires((notification,)),
        ensures
            forall|i: int| 0 <= i < self.handlers@.len() ==> (#[trigger] self.handlers@[i]).1.ensures((notification,), ()),
    {
        let mut i: usize = 0;
        while i < self.handlers.len()
            invariant
                i <= self.handlers.len(),
                forall|j: int| 0 <= j < self.handlers@.len() ==> (#[trigger] self.handlers@[j]).1.requires((notification,)),
                forall|j: int| 0 <= j < i ==> (#[trigger] self.handlers@[j]).1.ensures((notification,), ()),
            decreases self.handlers.len() - i,
        {
            (self.handlers[i].1)(notification);
            i += 1;
        }
    }
}

/// Persistent store for notifications, rooted at a directory.
#[derive(Debug, Clone)]
pub struct NotificationStore {
    pub dir: String,
}

impl NotificationStore {
    pub fn new(dir: &str) -> (r: Self)
        ensures
            r.dir@ == dir@,
    {
        NotificationStore { dir: dir.to_string() }
    }

    /// The store's directory under a root.
    pub fn under_root(root: &str) -> (r: Self)
        ensures
            r.dir@ == path_join(root@, "notifications"@),
    {
        NotificationStore { dir: join_path(root, "notifications") }
    }
}

/// Wire protocol integration for notifications.
#[derive(Debug, Clone, Default)]
pub struct WireNotificationBridge;

impl WireNotificationBridge {
    /// The text published to the wire hub, when there is one.
    pub fn publish(&self, has_hub: bool, text: String) -> (r: Option<String>)
        ensures
            has_hub ==> (r matches Some(t) && t@ == text@),
            !has_hub ==> r is None,
    {
        if has_hub {
            Some(text)
        } else {
            None
        }
    }
}


/// Notifications in title order, equal titles in any order.
pub open spec fn sorted_by_title(v: Seq<Notification>) -> bool {
    forall|i: int, j: int| 0 <= i < j < v.len() ==> !text_lt(v[j].title@, v[i].title@)
}

impl NotificationStore {
    /// Orders the notifications loaded from the store by title; notifications
    /// with equal titles keep their order.
    pub fn sort_loaded(loaded: Vec<Notification>) -> (r: Vec<Notification>)
        ensures
            sorted_by_title(r@),
            r@.to_multiset() == loaded@.to_multiset(),
    {
        let ghost all = loaded@;
        let mut rest = loaded;
        let mut out: Vec<Notification> = Vec::new();
        let ghost mut done: int = 0;
        assert(all.subrange(0, all.len() as int) =~= all);
        assert(all.subrange(0, 0) =~= Seq::<Notification>::empty());
        while rest.len() > 0
            invariant
                0 <= done <= all.len(),
                rest@ == all.subrange(done, all.len() as int),
                sorted_by_title(out@),
                out@.to_multiset() == all.subrange(0, done).to_multiset(),
            decreases rest.len(),
        {
            assert(rest@[0] == all[done]);
            let x = rest.remove(0);
            assert(rest@ =~= all.subrange(done + 1, all.len() as int));
            let mut p: usize = 0;
            while p < out.len() && !text_lt_exec(x.title.as_str(), out[p].title.as_str())
                invariant
                    p <= out@.len(),
                    forall|i: int| 0 <= i < p ==> !text_lt(x.title@, out@[i].title@),
                decreases out@.len() - p,
            {
                p += 1;
            }
            proof {
                if p < out@.len() {
                    assert forall|i: int| p <= i < out@.len() implies !text_lt(out@[i].title@, x.title@) by {
                        if text_lt(out@[i].title@, x.title@) {
                            lemma_text_lt_trans(out@[i].title@, x.title@, out@[p as int].title@);
                            if i == p {
                                lemma_text_lt_asym(out@[i].title@, out@[i].title@);
                            }
                        }
                    }
                }
            }
            let ghost before = out@;
            let ghost xv = x;
            out.insert(p, x);
            proof {
                assert(out@ =~= before.insert(p as int, xv));
                assert forall|i: int, j: int| 0 <= i < j < out@.len() implies !text_lt(out@[j].title@, out@[i].title@) by {
                    if j < p {
                        assert(out@[i] == before[i] && out@[j] == before[j]);
                    } else if j == p {
                        assert(out@[i] == before[i]);
                    } else if i == p {
                        assert(out@[j] == before[j - 1]);
                    } else if i < p {
                        assert(out@[i] == before[i] && out@[j] == before[j - 1]);
                    } else {
                        assert(out@[i] == before[i - 1] && out@[j] == before[j - 1]);
                    }
                }
                vstd::seq_lib::to_multiset_insert(before, p as int, xv);
                vstd::seq_lib::to_multiset_build(all.subrange(0, done), xv);
                assert(all.subrange(0, done + 1) =~= all.subrange(0, done).push(xv));
                done = done + 1;
            }
        }
        proof {
            assert(all.subrange(done, all.len() as int).len() == 0);
            assert(all.subrange(0, done) =~= all);
        }
        out
    }
}

} // verus!
