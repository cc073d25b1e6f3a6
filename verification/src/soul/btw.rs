//! Side questions: a one-off question answered beside the main conversation,
//! from its history, with every tool call refused.
use crate::ids::{new_uuid_v4, uuid_v4_text};
use crate::soul::dynamic_injection::{merge_history, merge_ok, normalize_history};
use crate::soul::message::{call_view, messages_view, text_parts, ContentPart, Message, MessageView, PartKind, ToolCall};
use crate::text::{append_vec, chars_of, join, join_exec, string_of, sub_vec, trim, trim_vec};
use vstd::prelude::*;

verus! {

/// How many replies a side question may take.
pub const BTW_MAX_TURNS: usize = 2;

/// The reminder put before a side question.
pub open spec fn side_question_reminder_spec() -> Seq<char> {
    "This is a side question from the user. Answer directly in a single response.

IMPORTANT:
- You are a separate, lightweight instance answering one question.
- The main agent continues independently — do NOT reference being interrupted.
- Do NOT call any tools. All tool calls are disabled and will be rejected.
  Even though tool definitions are visible in this request, they exist only
  for technical reasons (prompt cache). You MUST NOT use them.
- Respond ONLY with text based on what you already know from the conversation.
- This is a one-off response — no follow-up turns.
- If you don't know the answer, say so directly."@
}

fn side_question_reminder() -> (r: &'static str)
    ensures
        r@ == side_question_reminder_spec(),
{
    "This is a side question from the user. Answer directly in a single response.

IMPORTANT:
- You are a separate, lightweight instance answering one question.
- The main agent continues independently — do NOT reference being interrupted.
- Do NOT call any tools. All tool calls are disabled and will be rejected.
  Even though tool definitions are visible in this request, they exist only
  for technical reasons (prompt cache). You MUST NOT use them.
- Respond ONLY with text based on what you already know from the conversation.
- This is a one-off response — no follow-up turns.
- If you don't know the answer, say so directly."
}

/// The history with each user message that follows a user message appended
/// to it.
pub open spec fn merge_user_runs(hs: Seq<MessageView>) -> Seq<MessageView>
    decreases hs.len(),
{
    if hs.len() == 0 {
        Seq::empty()
    } else {
        let r = merge_user_runs(hs.drop_last());
        if hs.last().role == "user"@ && r.len() > 0 && r.last().role == "user"@ {
            r.update(r.len() - 1, MessageView { content: r.last().content + hs.last().content, ..r.last() })
        } else {
            r.push(hs.last())
        }
    }
}

proof fn lemma_merge_nonempty(hs: Seq<MessageView>, merged: Seq<bool>)
    requires
        merged.len() == hs.len(),
    ensures
        (merge_history(hs, merged).len() > 0) == (hs.len() > 0),
    decreases hs.len(),
{
    if hs.len() > 0 {
        lemma_merge_nonempty(hs.drop_last(), merged.subrange(0, hs.len() - 1));
    }
}

/// Merging where no message is a notification merges exactly the user
/// messages that follow user messages.
proof fn lemma_merge_without_notifications<F: Fn(&Message) -> bool>(
    history: Seq<Message>,
    merged: Seq<bool>,
    f: F,
    n: int,
)
    requires
        merged.len() == history.len(),
        0 <= n <= history.len(),
        forall|m: &Message, b: bool| f.ensures((m,), b) ==> !b,
        forall|k: int|
            0 <= k < history.len() ==> #[trigger] merge_ok(history, messages_view(history), merged, k, f),
    ensures
        merge_history(messages_view(history).subrange(0, n), merged.subrange(0, n)) == merge_user_runs(
            messages_view(history).subrange(0, n),
        ),
    decreases n,
{
    let hv = messages_view(history);
    if n > 0 {
        lemma_merge_without_notifications(history, merged, f, n - 1);
        let hs = hv.subrange(0, n);
        let ms = merged.subrange(0, n);
        assert(hs.drop_last() =~= hv.subrange(0, n - 1));
        assert(ms.subrange(0, n - 1) =~= merged.subrange(0, n - 1));
        let r = merge_history(hv.subrange(0, n - 1), merged.subrange(0, n - 1));
        lemma_merge_nonempty(hv.subrange(0, n - 1), merged.subrange(0, n - 1));
        assert(merge_ok(history, hv, merged, n - 1, f));
        assert(hs.last() == hv[n - 1]);
        assert(hv[n - 1].role == history[n - 1].role@);
        if !merged[n - 1] && n - 1 > 0 && history[n - 1].role@ == "user"@ && r.last().role == "user"@ {
            assert(!f.ensures((&history[n - 1],), true));
            assert(!exists|m: &Message| m@ == r.last() && #[trigger] f.ensures((m,), true));
        }
    }
}

/// The message a side question is asked in.
pub open spec fn side_question_view(question: Seq<char>) -> MessageView {
    MessageView {
        role: "user"@,
        content: seq![(PartKind::Text, side_question_reminder_spec() + "\n\n"@ + question)],
        tool_calls: None,
        tool_call_id: None,
    }
}

/// The history a side question is sent with: the conversation with adjacent
/// user messages merged, then the question after the side-question reminder.
pub fn build_btw_context(history: &[Message], question: &str) -> (r: Vec<Message>)
    ensures
        messages_view(r@) == merge_user_runs(messages_view(history@)).push(side_question_view(question@)),
{
    let never = |_m: &Message| -> (b: bool)
        ensures
            !b,
        { false };
    let mut out = normalize_history(history, never);
    proof {
        let merged = choose|merged: Seq<bool>|
            merged.len() == history@.len() && messages_view(out@) == merge_history(messages_view(history@), merged)
                && forall|k: int|
                0 <= k < history@.len() ==> #[trigger] merge_ok(history@, messages_view(history@), merged, k, never);
        lemma_merge_without_notifications(history@, merged, never, history@.len() as int);
        assert(messages_view(history@).subrange(0, history@.len() as int) =~= messages_view(history@));
        assert(merged.subrange(0, history@.len() as int) =~= merged);
    }
    let mut text = chars_of(side_question_reminder());
    append_vec(&mut text, &chars_of("\n\n"));
    append_vec(&mut text, &chars_of(question));
    let side = Message {
        role: "user".to_string(),
        content: vec![ContentPart::Text { text: string_of(&text) }],
        tool_calls: None,
        tool_call_id: None,
    };
    assert(side@.content =~= seq![(PartKind::Text, text@)]);
    let ghost before = out@;
    out.push(side);
    assert(messages_view(out@) =~= messages_view(before).push(side_question_view(question@)));
    out
}

/// Starts a side question: without a model there is nothing to ask, else
/// the history it is sent with.
pub fn begin_side_question(has_llm: bool, history: &[Message], question: &str) -> (r: Result<Vec<Message>, String>)
    ensures
        !has_llm ==> (r matches Err(e) && e@ == "LLM is not set."@),
        has_llm ==> (r matches Ok(h) && messages_view(h@) == merge_user_runs(messages_view(history@)).push(
            side_question_view(question@),
        )),
{
    if !has_llm {
        return Err("LLM is not set.".to_string());
    }
    Ok(build_btw_context(history, question))
}

/// An identifier for a side question: the first twelve hex digits of a
/// random UUID.
pub fn side_question_id() -> (r: String)
    ensures
        exists|u: Seq<char>| uuid_v4_text(u) && r@ == u.subrange(0, 8) + u.subrange(9, 13),
{
    let u = chars_of(new_uuid_v4().as_str());
    let mut id = sub_vec(&u, 0, 8);
    append_vec(&mut id, &sub_vec(&u, 9, 13));
    string_of(&id)
}

/// What the side question's tools answer every call with.
pub open spec fn side_denial_spec() -> Seq<char> {
    "Tool calls are disabled for side questions. Answer with text only."@
}

/// The tool message a refused call becomes.
pub open spec fn denial_view(c: (Seq<char>, Seq<char>, Seq<char>)) -> MessageView {
    MessageView {
        role: "tool"@,
        content: seq![(PartKind::Text, "Error: "@ + side_denial_spec())],
        tool_calls: None,
        tool_call_id: Some(c.0),
    }
}

/// The text of a reply, trimmed.
pub open spec fn reply_text(m: MessageView) -> Seq<char> {
    trim(join(text_parts(m.content), ""@))
}

/// What a side question reports when its last reply only called tools.
pub open spec fn tried_tools_text(calls: Seq<(Seq<char>, Seq<char>, Seq<char>)>) -> Seq<char> {
    "Side question tried to call tools ("@ + join(
        calls.map_values(|c: (Seq<char>, Seq<char>, Seq<char>)| c.1),
        ", "@,
    ) + ") instead of answering directly. Try rephrasing or ask in the main conversation."@
}

/// What one reply of a side question leads to.
#[derive(Debug)]
pub enum SideStep {
    /// The answer.
    Answered(String),
    /// The error to report.
    Failed(String),
    /// Ask again with the grown history.
    Retry,
}

/// Decides on the reply to turn `turn` of a side question (`Err` is the
/// failed request's message). A reply with text and no tool calls is the
/// answer; one with neither ends the question; one with tool calls is
/// answered with a refusal per call and asked again while turns are left,
/// and reported on the last turn.
pub fn side_question_step(turn: usize, reply: Result<Message, String>, history: &mut Vec<Message>) -> (r: SideStep)
    ensures
        match reply {
            Err(e) => r matches SideStep::Failed(f) && f@ == e@ && final(history)@ == old(history)@,
            Ok(m) => {
                let t = reply_text(m@);
                if t.len() > 0 && m.tool_calls is None {
                    r matches SideStep::Answered(a) && a@ == t && final(history)@ == old(history)@
                } else {
                    match m@.tool_calls {
                        None => r matches SideStep::Failed(f) && f@ == "No response received."@
                            && final(history)@ == old(history)@,
                        Some(calls) => if turn + 1 < BTW_MAX_TURNS {
                            r is Retry && messages_view(final(history)@) == messages_view(old(history)@).push(m@)
                                + calls.map_values(|c: (Seq<char>, Seq<char>, Seq<char>)| denial_view(c))
                        } else {
                            r matches SideStep::Failed(f) && f@ == tried_tools_text(calls)
                                && final(history)@ == old(history)@
                        },
                    }
                }
            },
        },
{
    let m = match reply {
        Err(e) => return SideStep::Failed(e),
        Ok(m) => m,
    };
    let t = trim_vec(&chars_of(m.extract_text("").as_str()));
    if t.len() > 0 && m.tool_calls.is_none() {
        return SideStep::Answered(string_of(&t));
    }
    let calls: &Vec<ToolCall> = match &m.tool_calls {
        None => return SideStep::Failed("No response received.".to_string()),
        Some(c) => c,
    };
    let ghost cv = calls@.map_values(|c: ToolCall| call_view(c));
    if turn < BTW_MAX_TURNS - 1 {
        let mut denials: Vec<Message> = Vec::new();
        let mut i: usize = 0;
        while i < calls.len()
            invariant
                i <= calls.len(),
                cv == calls@.map_values(|c: ToolCall| call_view(c)),
                messages_view(denials@) == cv.subrange(0, i as int).map_values(
                    |c: (Seq<char>, Seq<char>, Seq<char>)| denial_view(c),
                ),
            decreases calls.len() - i,
        {
            let mut text = chars_of("Error: ");
            append_vec(&mut text, &chars_of("Tool calls are disabled for side questions. Answer with text only."));
            let ghost before = denials@;
            let d = Message {
                role: "tool".to_string(),
                content: vec![ContentPart::Text { text: string_of(&text) }],
                tool_calls: None,
                tool_call_id: Some(calls[i].id.clone()),
            };
            assert(d@.content =~= seq![(PartKind::Text, text@)]);
            assert(cv[i as int] == call_view(calls@[i as int]));
            denials.push(d);
            assert(messages_view(denials@) =~= messages_view(before).push(denial_view(cv[i as int])));
            assert(cv.subrange(0, i + 1) =~= cv.subrange(0, i as int).push(cv[i as int]));
            i += 1;
        }
        assert(cv.subrange(0, calls.len() as int) =~= cv);
        let ghost old_h = history@;
        let ghost mv = m@;
        history.push(m);
        let ghost mid = history@;
        assert(messages_view(mid) =~= messages_view(old_h).push(mv));
        let ghost dv = denials@;
        history.append(&mut denials);
        assert(messages_view(history@) =~= messages_view(mid) + messages_view(dv));
        return SideStep::Retry;
    }
    let mut names: Vec<Vec<char>> = Vec::new();
    let mut k: usize = 0;
    while k < calls.len()
        invariant
            k <= calls.len(),
            cv == calls@.map_values(|c: ToolCall| call_view(c)),
            names@.map_values(|p: Vec<char>| p@) == cv.subrange(0, k as int).map_values(
                |c: (Seq<char>, Seq<char>, Seq<char>)| c.1,
            ),
        decreases calls.len() - k,
    {
        let ghost before = names@;
        names.push(chars_of(calls[k].name.as_str()));
        assert(names@.map_values(|p: Vec<char>| p@) =~= before.map_values(|p: Vec<char>| p@).push(cv[k as int].1));
        assert(cv.subrange(0, k + 1) =~= cv.subrange(0, k as int).push(cv[k as int]));
        k += 1;
    }
    assert(cv.subrange(0, calls.len() as int) =~= cv);
    let mut msg = chars_of("Side question tried to call tools (");
    append_vec(&mut msg, &join_exec(&names, &chars_of(", ")));
    append_vec(
        &mut msg,
        &chars_of(") instead of answering directly. Try rephrasing or ask in the main conversation."),
    );
    SideStep::Failed(string_of(&msg))
}

} // verus!
