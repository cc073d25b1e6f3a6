//! Prompt content injected before an LLM step, and the merging of adjacent
//! user messages into a clean request history.
use crate::soul::message::{copy_parts, messages_view, parts_view, Message, MessageView};
use crate::text::{chars_of, eq_vec};
use vstd::prelude::*;

verus! {

/// A dynamic prompt content to be injected before an LLM step.
#[derive(Debug, Clone)]
pub struct DynamicInjection {
    pub injection_type: String,
    pub content: String,
}

/// What an injection provider reads of the agent's state.
#[derive(Debug, Clone, Copy)]
pub struct InjectionContext {
    pub plan_mode: bool,
    pub yolo: bool,
}

/// A source of injections for the next LLM request.
pub trait DynamicInjectionProvider {
    /// Returns injections to be merged into the next LLM request.
    fn get_injections(&self, history: &[Message], ctx: &InjectionContext) -> Vec<DynamicInjection>;
}

/// Injects plan mode instructions when plan mode is active.
#[derive(Debug, Clone, Default)]
pub struct PlanModeInjectionProvider;

/// Injects YOLO mode reminders when auto-approve is enabled.
#[derive(Debug, Clone, Default)]
pub struct YoloModeInjectionProvider;

impl DynamicInjectionProvider for PlanModeInjectionProvider {
    fn get_injections(&self, history: &[Message], ctx: &InjectionContext) -> (r: Vec<DynamicInjection>)
        ensures
            !ctx.plan_mode ==> r@.len() == 0,
            ctx.plan_mode ==> r@.len() == 1 && r@[0].injection_type@ == "plan_mode"@
                && r@[0].content@ == "Plan mode is active. Use research and planning tools only."@,
    {
        if !ctx.plan_mode {
            return Vec::new();
        }
        vec![DynamicInjection {
            injection_type: "plan_mode".to_string(),
            content: "Plan mode is active. Use research and planning tools only.".to_string(),
        }]
    }
}

impl DynamicInjectionProvider for YoloModeInjectionProvider {
    fn get_injections(&self, history: &[Message], ctx: &InjectionContext) -> (r: Vec<DynamicInjection>)
        ensures
            !ctx.yolo ==> r@.len() == 0,
            ctx.yolo ==> r@.len() == 1 && r@[0].injection_type@ == "yolo_mode"@
                && r@[0].content@ == "YOLO mode is enabled. All actions will be auto-approved."@,
    {
        if !ctx.yolo {
            return Vec::new();
        }
        vec![DynamicInjection {
            injection_type: "yolo_mode".to_string(),
            content: "YOLO mode is enabled. All actions will be auto-approved.".to_string(),
        }]
    }
}

/// The history with some messages merged into the one before: where
/// `merged[i]` holds, message `i`'s content is appended to the last message
/// kept so far; otherwise message `i` is kept as it is.
pub open spec fn merge_history(hs: Seq<MessageView>, merged: Seq<bool>) -> Seq<MessageView>
    decreases hs.len(),
{
    if hs.len() == 0 {
        Seq::empty()
    } else {
        let r = merge_history(hs.drop_last(), merged.subrange(0, hs.len() - 1));
        if merged[hs.len() - 1] && r.len() > 0 {
            r.update(
                r.len() - 1,
                MessageView { content: r.last().content + hs.last().content, ..r.last() },
            )
        } else {
            r.push(hs.last())
        }
    }
}

/// Message `k` was merged only if it and the message it joins are user
/// messages and `f` called neither of the two a notification; it was kept
/// apart from such a user message only if `f` called one of the two a
/// notification.
pub open spec fn merge_ok<F: Fn(&Message) -> bool>(
    history: Seq<Message>,
    hv: Seq<MessageView>,
    merged: Seq<bool>,
    k: int,
    f: F,
) -> bool {
    let prev = merge_history(hv.subrange(0, k), merged.subrange(0, k));
    &&& merged[k] ==> {
        &&& k > 0
        &&& history[k].role@ == "user"@
        &&& prev.last().role == "user"@
        &&& f.ensures((&history[k],), false)
        &&& exists|m: &Message| m@ == prev.last() && #[trigger] f.ensures((m,), false)
    }
    &&& (!merged[k] && k > 0 && history[k].role@ == "user"@ && prev.last().role == "user"@) ==> (f.ensures(
        (&history[k],),
        true,
    ) || exists|m: &Message| m@ == prev.last() && #[trigger] f.ensures((m,), true))
}

/// Merges adjacent user messages to produce a clean request history: a user
/// message is appended to a user message before it unless `is_notification`
/// says either is a notification. Every other message is kept as it is.
pub fn normalize_history<F: Fn(&Message) -> bool>(history: &[Message], is_notification: F) -> (r: Vec<Message>)
    requires
        forall|m: &Message| is_notification.requires((m,)),
    ensures
        exists|merged: Seq<bool>|
            merged.len() == history@.len() && messages_view(r@) == merge_history(
                messages_view(history@),
                merged,
            ) && forall|k: int|
                0 <= k < history@.len() ==> #[trigger] merge_ok(
                    history@,
                    messages_view(history@),
                    merged,
                    k,
                    is_notification,
                ),
{
    let ghost hv = messages_view(history@);
    let mut result: Vec<Message> = Vec::new();
    let ghost mut merged: Seq<bool> = Seq::empty();
    let user = chars_of("user");
    proof {
        assert(hv.subrange(0, 0) =~= Seq::<MessageView>::empty());
        assert(messages_view(result@) =~= Seq::<MessageView>::empty());
    }
    let mut i: usize = 0;
    while i < history.len()
        invariant
            i <= history.len(),
            forall|m: &Message| is_notification.requires((m,)),
            user@ == "user"@,
            hv == messages_view(history@),
            merged.len() == i,
            (i > 0) == (result@.len() > 0),
            messages_view(result@) == merge_history(hv.subrange(0, i as int), merged),
            forall|k: int| 0 <= k < i ==> #[trigger] merge_ok(history@, hv, merged, k, is_notification),
        decreases history.len() - i,
    {
        let msg = &history[i];
        let ghost before = messages_view(result@);
        let ghost old_merged = merged;
        assert(hv[i as int] == msg@);
        assert(hv.subrange(0, i + 1).drop_last() =~= hv.subrange(0, i as int));
        let n = result.len();
        let mut do_merge = false;
        let mut same_user = false;
        let mut last_notif = false;
        let mut msg_notif = false;
        let ghost last_msg = if n > 0 { result@[n - 1] } else { *msg };
        if n > 0 {
            same_user = eq_vec(&chars_of(result[n - 1].role.as_str()), &chars_of(msg.role.as_str()))
                && eq_vec(&chars_of(msg.role.as_str()), &user);
            if same_user {
                last_notif = is_notification(&result[n - 1]);
                if !last_notif {
                    msg_notif = is_notification(msg);
                    do_merge = !msg_notif;
                }
            }
        }
        proof {
            if n > 0 {
                assert(before.last() == result@[n - 1]@);
            }
            if do_merge {
                assert(is_notification.ensures((&last_msg,), false));
                assert(last_msg@ == before.last());
            }
        }
        if do_merge {
            let mut last = result.pop().unwrap();
            let ghost lc = last@;
            let extra = copy_parts(&msg.content);
            let ghost base = parts_view(last.content@);
            let mut k: usize = 0;
            while k < extra.len()
                invariant
                    k <= extra.len(),
                    last@.role == lc.role,
                    last@.tool_calls == lc.tool_calls,
                    last@.tool_call_id == lc.tool_call_id,
                    parts_view(last.content@) == base + parts_view(extra@).subrange(0, k as int),
                decreases extra.len() - k,
            {
                let p = extra[k].copy();
                let ghost oc = last.content@;
                last.content.push(p);
                assert(parts_view(last.content@) =~= parts_view(oc).push(crate::soul::message::part_view(p)));
                assert(parts_view(extra@).subrange(0, k + 1) =~= parts_view(extra@).subrange(0, k as int).push(
                    parts_view(extra@)[k as int],
                ));
                assert(parts_view(last.content@) =~= base + parts_view(extra@).subrange(0, k + 1));
                k += 1;
            }
            proof {
                assert(parts_view(extra@).subrange(0, extra@.len() as int) =~= parts_view(extra@));
                assert(last@ =~= MessageView { content: lc.content + msg@.content, ..lc });
            }
            result.push(last);
            proof {
                merged = merged.push(true);
                assert(merged.subrange(0, i as int) =~= old_merged);
                assert(messages_view(result@) =~= merge_history(hv.subrange(0, i + 1), merged));
            }
        } else {
            result.push(msg.copy());
            proof {
                merged = merged.push(false);
                assert(merged.subrange(0, i as int) =~= old_merged);
                assert(messages_view(result@) =~= merge_history(hv.subrange(0, i + 1), merged));
            }
        }
        proof {
            assert forall|k: int| 0 <= k < i + 1 implies merge_ok(history@, hv, merged, k, is_notification) by {
                assert(merged.subrange(0, k) =~= old_merged.subrange(0, k));
                if k < i {
                    assert(merge_ok(history@, hv, old_merged, k, is_notification));
                } else {
                    assert(merged.subrange(0, k) =~= old_merged);
                    if !do_merge && i > 0 && history@[k].role@ == "user"@ && before.last().role == "user"@ {
                        assert(same_user);
                        if last_notif {
                            assert(result@[n - 1]@ == before.last());
                        }
                    }
                }
            }
        }
        i += 1;
    }
    proof {
        assert(hv.subrange(0, history@.len() as int) =~= hv);
    }
    result
}

} // verus!
