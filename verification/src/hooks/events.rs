//! The payloads hook commands receive for each event.
use crate::text::{chars_of, eq_vec};
use vstd::prelude::*;

verus! {

/// A value in a hook payload.
#[derive(Debug)]
pub enum HookValue {
    Str(String),
    Bool(bool),
    Num(usize),
    /// A tool's input, as the tool received it.
    Json(serde_json::Value),
}

/// A hook payload: named values, each name once.
pub type HookPayload = Vec<(String, HookValue)>;

pub open spec fn payload_keys(p: Seq<(String, HookValue)>) -> Seq<Seq<char>> {
    p.map_values(|e: (String, HookValue)| e.0@)
}

/// The value a payload holds under a name.
pub open spec fn payload_value(p: Seq<(String, HookValue)>, key: Seq<char>) -> Option<HookValue> {
    if exists|i: int| 0 <= i < p.len() && p[i].0@ == key {
        Some(p[choose|i: int| 0 <= i < p.len() && p[i].0@ == key].1)
    } else {
        None
    }
}

pub open spec fn keys_distinct(p: Seq<(String, HookValue)>) -> bool {
    forall|a: int, b: int| 0 <= a < b < p.len() ==> p[a].0@ != p[b].0@
}

/// Looks up a payload value by name.
pub fn payload_get<'a>(payload: &'a HookPayload, key: &str) -> (r: Option<&'a HookValue>)
    requires
        keys_distinct(payload@),
    ensures
        match r {
            Some(v) => payload_value(payload@, key@) == Some(*v),
            None => payload_value(payload@, key@) is None,
        },
{
    let k = chars_of(key);
    let mut i: usize = 0;
    while i < payload.len()
        invariant
            i <= payload.len(),
            k@ == key@,
            keys_distinct(payload@),
            forall|j: int| 0 <= j < i ==> payload@[j].0@ != key@,
        decreases payload.len() - i,
    {
        if eq_vec(&chars_of(payload[i].0.as_str()), &k) {
            proof {
                let c = choose|c: int| 0 <= c < payload@.len() && payload@[c].0@ == key@;
                assert(c == i as int) by {
                    if c < i as int {
                        assert(payload@[c].0@ != payload@[i as int].0@);
                    } else if c > i as int {
                        assert(payload@[i as int].0@ != payload@[c].0@);
                    }
                }
            }
            return Some(&payload[i].1);
        }
        i += 1;
    }
    None
}

fn s(v: &str) -> (r: HookValue)
    ensures
        r matches HookValue::Str(x) && x@ == v@,
{
    HookValue::Str(v.to_string())
}

fn entry(k: &str, v: HookValue) -> (r: (String, HookValue))
    ensures
        r.0@ == k@,
        r.1 == v,
{
    (k.to_string(), v)
}

/// The fields every payload starts with.
pub open spec fn base_ok(p: Seq<(String, HookValue)>, event: Seq<char>, session_id: Seq<char>, cwd: Seq<char>) -> bool {
    &&& p.len() >= 3
    &&& str_entry(p[0], "hook_event_name"@, event)
    &&& str_entry(p[1], "session_id"@, session_id)
    &&& str_entry(p[2], "cwd"@, cwd)
}

/// An entry holding a text value.
pub open spec fn str_entry(e: (String, HookValue), k: Seq<char>, v: Seq<char>) -> bool {
    &&& e.0@ == k
    &&& e.1 matches HookValue::Str(x) && x@ == v
}

fn base(event: &str, session_id: &str, cwd: &str) -> (r: HookPayload)
    ensures
        r@.len() == 3,
        base_ok(r@, event@, session_id@, cwd@),
{
    vec![entry("hook_event_name", s(event)), entry("session_id", s(session_id)), entry("cwd", s(cwd))]
}

proof fn lemma_distinct_keys(p: Seq<(String, HookValue)>, names: Seq<Seq<char>>)
    requires
        p.len() == names.len(),
        forall|i: int| 0 <= i < p.len() ==> p[i].0@ == names[i],
        forall|a: int, b: int| 0 <= a < b < names.len() ==> names[a] != names[b],
    ensures
        keys_distinct(p),
{
    assert forall|a: int, b: int| 0 <= a < b < p.len() implies p[a].0@ != p[b].0@ by {
        assert(p[a].0@ == names[a]);
        assert(p[b].0@ == names[b]);
    }
}

/// The `Stop` payload.
pub fn stop(session_id: &str, cwd: &str, stop_hook_active: bool) -> (r: HookPayload)
    ensures
        r@.len() == 4,
        base_ok(r@, "Stop"@, session_id@, cwd@),
        r@[3].0@ == "stop_hook_active"@ && r@[3].1 == HookValue::Bool(stop_hook_active),
        keys_distinct(r@),
{
    let mut p = base("Stop", session_id, cwd);
    p.push(entry("stop_hook_active", HookValue::Bool(stop_hook_active)));
    proof {
        reveal_strlit("hook_event_name");
        reveal_strlit("session_id");
        reveal_strlit("cwd");
        reveal_strlit("stop_hook_active");
        assert("hook_event_name"@[0] != "session_id"@[0]);
        assert("hook_event_name"@[0] != "cwd"@[0]);
        assert("hook_event_name"@[0] != "stop_hook_active"@[0]);
        assert("session_id"@[0] != "cwd"@[0]);
        assert("session_id"@[1] != "stop_hook_active"@[1]);
        assert("cwd"@[0] != "stop_hook_active"@[0]);
        lemma_distinct_keys(p@, seq!["hook_event_name"@, "session_id"@, "cwd"@, "stop_hook_active"@]);
    }
    p
}

/// The `UserPromptSubmit` payload.
pub fn user_prompt_submit(session_id: &str, cwd: &str, prompt: &str) -> (r: HookPayload)
    ensures
        r@.len() == 4,
        base_ok(r@, "UserPromptSubmit"@, session_id@, cwd@),
        str_entry(r@[3], "prompt"@, prompt@),
{
    let mut p = base("UserPromptSubmit", session_id, cwd);
    p.push(entry("prompt", s(prompt)));
    p
}

/// The `SessionStart` payload.
pub fn session_start(session_id: &str, cwd: &str, source: &str) -> (r: HookPayload)
    ensures
        r@.len() == 4,
        base_ok(r@, "SessionStart"@, session_id@, cwd@),
        str_entry(r@[3], "source"@, source@),
{
    let mut p = base("SessionStart", session_id, cwd);
    p.push(entry("source", s(source)));
    p
}

/// The `SessionEnd` payload.
pub fn session_end(session_id: &str, cwd: &str, reason: &str) -> (r: HookPayload)
    ensures
        r@.len() == 4,
        base_ok(r@, "SessionEnd"@, session_id@, cwd@),
        str_entry(r@[3], "reason"@, reason@),
{
    let mut p = base("SessionEnd", session_id, cwd);
    p.push(entry("reason", s(reason)));
    p
}

/// The `StopFailure` payload.
pub fn stop_failure(session_id: &str, cwd: &str, error_type: &str, error_message: &str) -> (r: HookPayload)
    ensures
        r@.len() == 5,
        base_ok(r@, "StopFailure"@, session_id@, cwd@),
        str_entry(r@[3], "error_type"@, error_type@),
        str_entry(r@[4], "error_message"@, error_message@),
{
    let mut p = base("StopFailure", session_id, cwd);
    p.push(entry("error_type", s(error_type)));
    p.push(entry("error_message", s(error_message)));
    p
}

/// The `SubagentStart` payload.
pub fn subagent_start(session_id: &str, cwd: &str, agent_name: &str, prompt: &str) -> (r: HookPayload)
    ensures
        r@.len() == 5,
        base_ok(r@, "SubagentStart"@, session_id@, cwd@),
        str_entry(r@[3], "agent_name"@, agent_name@),
        str_entry(r@[4], "prompt"@, prompt@),
{
    let mut p = base("SubagentStart", session_id, cwd);
    p.push(entry("agent_name", s(agent_name)));
    p.push(entry("prompt", s(prompt)));
    p
}

/// The `SubagentStop` payload.
pub fn subagent_stop(session_id: &str, cwd: &str, agent_name: &str, response: &str) -> (r: HookPayload)
    ensures
        r@.len() == 5,
        base_ok(r@, "SubagentStop"@, session_id@, cwd@),
        str_entry(r@[3], "agent_name"@, agent_name@),
        str_entry(r@[4], "response"@, response@),
{
    let mut p = base("SubagentStop", session_id, cwd);
    p.push(entry("agent_name", s(agent_name)));
    p.push(entry("response", s(response)));
    p
}

/// The `PreCompact` payload.
pub fn pre_compact(session_id: &str, cwd: &str, trigger: &str, token_count: usize) -> (r: HookPayload)
    ensures
        r@.len() == 5,
        base_ok(r@, "PreCompact"@, session_id@, cwd@),
        str_entry(r@[3], "trigger"@, trigger@),
        r@[4].0@ == "token_count"@ && r@[4].1 == HookValue::Num(token_count),
{
    let mut p = base("PreCompact", session_id, cwd);
    p.push(entry("trigger", s(trigger)));
    p.push(entry("token_count", HookValue::Num(token_count)));
    p
}

/// The `PostCompact` payload.
pub fn post_compact(session_id: &str, cwd: &str, trigger: &str, estimated_token_count: usize) -> (r: HookPayload)
    ensures
        r@.len() == 5,
        base_ok(r@, "PostCompact"@, session_id@, cwd@),
        str_entry(r@[3], "trigger"@, trigger@),
        r@[4].0@ == "estimated_token_count"@ && r@[4].1 == HookValue::Num(estimated_token_count),
{
    let mut p = base("PostCompact", session_id, cwd);
    p.push(entry("trigger", s(trigger)));
    p.push(entry("estimated_token_count", HookValue::Num(estimated_token_count)));
    p
}

/// The `Notification` payload.
pub fn notification(
    session_id: &str,
    cwd: &str,
    sink: &str,
    notification_type: &str,
    title: &str,
    body: &str,
    severity: &str,
) -> (r: HookPayload)
    ensures
        r@.len() == 8,
        base_ok(r@, "Notification"@, session_id@, cwd@),
        str_entry(r@[3], "sink"@, sink@),
        str_entry(r@[4], "notification_type"@, notification_type@),
        str_entry(r@[5], "title"@, title@),
        str_entry(r@[6], "body"@, body@),
        str_entry(r@[7], "severity"@, severity@),
        keys_distinct(r@),
{
    let mut p = base("Notification", session_id, cwd);
    p.push(entry("sink", s(sink)));
    p.push(entry("notification_type", s(notification_type)));
    p.push(entry("title", s(title)));
    p.push(entry("body", s(body)));
    p.push(entry("severity", s(severity)));
    proof {
        reveal_strlit("hook_event_name");
        reveal_strlit("session_id");
        reveal_strlit("cwd");
        reveal_strlit("sink");
        reveal_strlit("notification_type");
        reveal_strlit("title");
        reveal_strlit("body");
        reveal_strlit("severity");
        assert("hook_event_name"@[0] != "session_id"@[0]);
        assert("hook_event_name"@[0] != "cwd"@[0]);
        assert("hook_event_name"@[0] != "sink"@[0]);
        assert("hook_event_name"@[0] != "notification_type"@[0]);
        assert("hook_event_name"@[0] != "title"@[0]);
        assert("hook_event_name"@[0] != "body"@[0]);
        assert("hook_event_name"@[0] != "severity"@[0]);
        assert("session_id"@[0] != "cwd"@[0]);
        assert("session_id"@[1] != "sink"@[1]);
        assert("session_id"@[0] != "notification_type"@[0]);
        assert("session_id"@[0] != "title"@[0]);
        assert("session_id"@[0] != "body"@[0]);
        assert("session_id"@[2] != "severity"@[2]);
        assert("cwd"@[0] != "sink"@[0]);
        assert("cwd"@[0] != "notification_type"@[0]);
        assert("cwd"@[0] != "title"@[0]);
        assert("cwd"@[0] != "body"@[0]);
        assert("cwd"@[0] != "severity"@[0]);
        assert("sink"@[0] != "notification_type"@[0]);
        assert("sink"@[0] != "title"@[0]);
        assert("sink"@[0] != "body"@[0]);
        assert("sink"@[1] != "severity"@[1]);
        assert("notification_type"@[0] != "title"@[0]);
        assert("notification_type"@[0] != "body"@[0]);
        assert("notification_type"@[0] != "severity"@[0]);
        assert("title"@[0] != "body"@[0]);
        assert("title"@[0] != "severity"@[0]);
        assert("body"@[0] != "severity"@[0]);
        lemma_distinct_keys(p@, seq![
            "hook_event_name"@, "session_id"@, "cwd"@, "sink"@, "notification_type"@, "title"@, "body"@,
            "severity"@,
        ]);
    }
    p
}

/// The `PreToolUse` payload.
pub fn pre_tool_use(
    session_id: &str,
    cwd: &str,
    tool_name: &str,
    tool_input: &serde_json::Value,
    tool_call_id: &str,
) -> (r: HookPayload)
    ensures
        r@.len() == 6,
        base_ok(r@, "PreToolUse"@, session_id@, cwd@),
        str_entry(r@[3], "tool_name"@, tool_name@),
        r@[4].0@ == "tool_input"@ && r@[4].1 == HookValue::Json(*tool_input),
        str_entry(r@[5], "tool_call_id"@, tool_call_id@),
{
    let mut p = base("PreToolUse", session_id, cwd);
    p.push(entry("tool_name", s(tool_name)));
    p.push(entry("tool_input", HookValue::Json(json_clone(tool_input))));
    p.push(entry("tool_call_id", s(tool_call_id)));
    p
}

/// The `PostToolUse` payload.
pub fn post_tool_use(
    session_id: &str,
    cwd: &str,
    tool_name: &str,
    tool_input: &serde_json::Value,
    tool_output: &str,
    tool_call_id: &str,
) -> (r: HookPayload)
    ensures
        r@.len() == 7,
        base_ok(r@, "PostToolUse"@, session_id@, cwd@),
        str_entry(r@[3], "tool_name"@, tool_name@),
        r@[4].0@ == "tool_input"@ && r@[4].1 == HookValue::Json(*tool_input),
        str_entry(r@[5], "tool_output"@, tool_output@),
        str_entry(r@[6], "tool_call_id"@, tool_call_id@),
{
    let mut p = base("PostToolUse", session_id, cwd);
    p.push(entry("tool_name", s(tool_name)));
    p.push(entry("tool_input", HookValue::Json(json_clone(tool_input))));
    p.push(entry("tool_output", s(tool_output)));
    p.push(entry("tool_call_id", s(tool_call_id)));
    p
}

/// The `PostToolUseFailure` payload.
pub fn post_tool_use_failure(
    session_id: &str,
    cwd: &str,
    tool_name: &str,
    tool_input: &serde_json::Value,
    error: &str,
    tool_call_id: &str,
) -> (r: HookPayload)
    ensures
        r@.len() == 7,
        base_ok(r@, "PostToolUseFailure"@, session_id@, cwd@),
        str_entry(r@[3], "tool_name"@, tool_name@),
        r@[4].0@ == "tool_input"@ && r@[4].1 == HookValue::Json(*tool_input),
        str_entry(r@[5], "error"@, error@),
        str_entry(r@[6], "tool_call_id"@, tool_call_id@),
{
    let mut p = base("PostToolUseFailure", session_id, cwd);
    p.push(entry("tool_name", s(tool_name)));
    p.push(entry("tool_input", HookValue::Json(json_clone(tool_input))));
    p.push(entry("error", s(error)));
    p.push(entry("tool_call_id", s(tool_call_id)));
    p
}

/// Calls `serde_json::Value::clone`, which `derive(Clone)` writes: the copy
/// equals the value copied.
#[verifier::external_body]
pub(crate) fn json_clone(v: &serde_json::Value) -> (r: serde_json::Value)
    ensures
        r == *v,
{
    v.clone()
}

} // verus!
