//! Talking to model providers: which way a chat goes, the messages as each
//! provider's API reads and writes them, where requests are sent, what a
//! failed request says, and the replies of the local echo providers.
use crate::llm::{Llm, ProviderType};
use crate::soul::message::{
    messages_view, parts_view, text_parts, ContentPart, Message, MessageView, PartKind, ToolCall,
};
use crate::text::{append_vec, chars_of, eq_vec, find_sub_exec, find_sub_from, join, join_exec, string_of};
use vstd::prelude::*;

verus! {

/// How a chat request is served.
#[derive(Debug, Clone, Copy, PartialEq, Eq, Structural)]
pub enum ChatRoute {
    /// No base URL for a provider that needs one: a fixed reply.
    Unconfigured,
    Echo,
    ScriptedEcho,
    Chaos,
    Anthropic,
    OpenAiCompatible,
}

/// How a chat with these settings is served: the local providers answer
/// themselves; a remote one needs a base URL; Anthropic has its own API and
/// every other provider speaks the OpenAI-compatible one.
pub open spec fn chat_route_spec(provider: ProviderType, base_url_empty: bool) -> ChatRoute {
    let local = provider == ProviderType::Echo || provider == ProviderType::ScriptedEcho || provider
        == ProviderType::Chaos;
    if base_url_empty && !local {
        ChatRoute::Unconfigured
    } else {
        match provider {
            ProviderType::Echo => ChatRoute::Echo,
            ProviderType::ScriptedEcho => ChatRoute::ScriptedEcho,
            ProviderType::Chaos => ChatRoute::Chaos,
            ProviderType::Anthropic => ChatRoute::Anthropic,
            _ => ChatRoute::OpenAiCompatible,
        }
    }
}

/// How a chat with these settings is served (see `chat_route_spec`).
pub fn chat_route(llm: &Llm) -> (r: ChatRoute)
    ensures
        r == chat_route_spec(llm.provider_type, llm.base_url@.len() == 0),
{
    let empty = chars_of(llm.base_url.as_str()).len() == 0;
    let local = match llm.provider_type {
        ProviderType::Echo | ProviderType::ScriptedEcho | ProviderType::Chaos => true,
        _ => false,
    };
    if empty && !local {
        return ChatRoute::Unconfigured;
    }
    match llm.provider_type {
        ProviderType::Echo => ChatRoute::Echo,
        ProviderType::ScriptedEcho => ChatRoute::ScriptedEcho,
        ProviderType::Chaos => ChatRoute::Chaos,
        ProviderType::Anthropic => ChatRoute::Anthropic,
        _ => ChatRoute::OpenAiCompatible,
    }
}

fn assistant_text(text: String) -> (r: Message)
    ensures
        r@ == (MessageView {
            role: "assistant"@,
            content: seq![(PartKind::Text, text@)],
            tool_calls: None,
            tool_call_id: None,
        }),
{
    let mut content = Vec::new();
    content.push(ContentPart::Text { text });
    assert(parts_view(content@) =~= seq![(PartKind::Text, text@)]);
    Message { role: "assistant".to_string(), content, tool_calls: None, tool_call_id: None }
}

/// The reply when the provider has no base URL.
pub fn unconfigured_reply() -> (r: Message)
    ensures
        r@ == (MessageView {
            role: "assistant"@,
            content: seq![(PartKind::Text, "LLM base_url is not configured."@)],
            tool_calls: None,
            tool_call_id: None,
        }),
{
    assistant_text("LLM base_url is not configured.".to_string())
}

/// The echo provider's text: the system prompt and each message, each
/// introduced by its role in brackets, separated by blank lines.
pub open spec fn echo_text(system_prompt: Option<Seq<char>>, history: Seq<MessageView>) -> Seq<char> {
    let first = match system_prompt {
        Some(sp) => seq!["[system]\n"@ + sp],
        None => Seq::empty(),
    };
    let parts = first + history.map_values(|m: MessageView| "["@ + m.role + "]\n"@ + join(text_parts(m.content), ""@));
    if parts.len() == 0 {
        "echo: no input"@
    } else {
        join(parts, "\n\n"@)
    }
}

/// The echo provider's reply (see `echo_text`).
pub fn chat_echo(system_prompt: Option<&str>, history: &Vec<Message>) -> (r: Message)
    ensures
        r@ == (MessageView {
            role: "assistant"@,
            content: seq![(
                PartKind::Text,
                echo_text(
                    match system_prompt {
                        Some(s) => Some(s@),
                        None => None,
                    },
                    messages_view(history@),
                ),
            )],
            tool_calls: None,
            tool_call_id: None,
        }),
{
    let ghost sp = match system_prompt {
        Some(s) => Some(s@),
        None => None::<Seq<char>>,
    };
    let ghost hv = messages_view(history@);
    let ghost first = match sp {
        Some(s) => seq!["[system]\n"@ + s],
        None => Seq::<Seq<char>>::empty(),
    };
    let ghost entries = hv.map_values(|m: MessageView| "["@ + m.role + "]\n"@ + join(text_parts(m.content), ""@));
    let mut parts: Vec<Vec<char>> = Vec::new();
    if let Some(s) = system_prompt {
        let mut v = chars_of("[system]\n");
        append_vec(&mut v, &chars_of(s));
        parts.push(v);
    }
    assert(crate::text::vecs_view(parts@) =~= first);
    let mut i: usize = 0;
    while i < history.len()
        invariant
            i <= history.len(),
            hv == messages_view(history@),
            entries == hv.map_values(|m: MessageView| "["@ + m.role + "]\n"@ + join(text_parts(m.content), ""@)),
            crate::text::vecs_view(parts@) == first + entries.subrange(0, i as int),
        decreases history.len() - i,
    {
        let mut v = chars_of("[");
        append_vec(&mut v, &chars_of(history[i].role.as_str()));
        append_vec(&mut v, &chars_of("]\n"));
        append_vec(&mut v, &chars_of(history[i].extract_text("").as_str()));
        let ghost before = crate::text::vecs_view(parts@);
        parts.push(v);
        assert(crate::text::vecs_view(parts@) =~= before.push(entries[i as int]));
        assert(entries.subrange(0, i + 1) =~= entries.subrange(0, i as int).push(entries[i as int]));
        i += 1;
    }
    assert(entries.subrange(0, history.len() as int) =~= entries);
    let text = if parts.len() == 0 {
        "echo: no input".to_string()
    } else {
        string_of(&join_exec(&parts, &chars_of("\n\n")))
    };
    assistant_text(text)
}

/// The scripted echo provider's reply: the first line of its script, or a
/// note that the script has ended.
pub fn chat_scripted_echo(lines: &Vec<String>) -> (r: Message)
    ensures
        r@ == (MessageView {
            role: "assistant"@,
            content: seq![(
                PartKind::Text,
                if lines@.len() > 0 {
                    lines@[0]@
                } else {
                    "scripted_echo: end of script"@
                },
            )],
            tool_calls: None,
            tool_call_id: None,
        }),
{
    let text = if lines.len() > 0 {
        lines[0].clone()
    } else {
        "scripted_echo: end of script".to_string()
    };
    assistant_text(text)
}

/// An endpoint under a base URL: a `/` between them unless the base ends
/// with one.
pub open spec fn endpoint_spec(base_url: Seq<char>, path: Seq<char>) -> Seq<char> {
    if base_url.len() > 0 && base_url.last() == '/' {
        base_url + path
    } else {
        base_url + "/"@ + path
    }
}

/// An endpoint under a base URL (see `endpoint_spec`).
pub fn endpoint(base_url: &str, path: &str) -> (r: String)
    ensures
        r@ == endpoint_spec(base_url@, path@),
{
    let mut v = chars_of(base_url);
    if !(v.len() > 0 && v[v.len() - 1] == '/') {
        v.push('/');
        proof {
            reveal_strlit("/");
        }
    }
    append_vec(&mut v, &chars_of(path));
    string_of(&v)
}

/// The OpenAI-compatible chat endpoint.
pub fn chat_completions_url(base_url: &str) -> (r: String)
    ensures
        r@ == endpoint_spec(base_url@, "v1/chat/completions"@),
{
    endpoint(base_url, "v1/chat/completions")
}

/// The Anthropic messages endpoint.
pub fn anthropic_messages_url(base_url: &str) -> (r: String)
    ensures
        r@ == endpoint_spec(base_url@, "v1/messages"@),
{
    endpoint(base_url, "v1/messages")
}

pub open spec fn not_found_hint() -> Seq<char> {
    "\n\nHint: (1) `base_url` should be the API host only, e.g. `https://api.moonshot.cn` — not `.../v1` (otherwise the client calls `.../v1/v1/chat/completions` and gets 404). (2) Check `model` in ~/.kimi/config.toml matches a model id your key can use."@
}

/// What a failed OpenAI-compatible request says: its status and body, and
/// a hint about the base URL and model when the resource was not found.
pub fn openai_http_error(status: &str, is_not_found: bool, body: &str) -> (r: String)
    ensures
        r@ == "LLM request failed: HTTP "@ + status@ + " - "@ + body@ + (if is_not_found || find_sub_from(
            body@,
            "resource_not_found"@,
            0,
        ) is Some {
            not_found_hint()
        } else {
            Seq::empty()
        }),
{
    let mut m = chars_of("LLM request failed: HTTP ");
    append_vec(&mut m, &chars_of(status));
    append_vec(&mut m, &chars_of(" - "));
    append_vec(&mut m, &chars_of(body));
    if is_not_found || find_sub_exec(&chars_of(body), &chars_of("resource_not_found")).is_some() {
        append_vec(
            &mut m,
            &chars_of(
                "\n\nHint: (1) `base_url` should be the API host only, e.g. `https://api.moonshot.cn` — not `.../v1` (otherwise the client calls `.../v1/v1/chat/completions` and gets 404). (2) Check `model` in ~/.kimi/config.toml matches a model id your key can use.",
            ),
        );
    }
    string_of(&m)
}

/// What a failed Anthropic request says.
pub fn anthropic_http_error(status: &str, body: &str) -> (r: String)
    ensures
        r@ == "Anthropic request failed: HTTP "@ + status@ + " - "@ + body@,
{
    let mut m = chars_of("Anthropic request failed: HTTP ");
    append_vec(&mut m, &chars_of(status));
    append_vec(&mut m, &chars_of(" - "));
    append_vec(&mut m, &chars_of(body));
    string_of(&m)
}

/// A tool call as the OpenAI-compatible API writes it.
#[derive(Debug, Clone)]
pub struct FunctionCallDef {
    pub name: String,
    /// The JSON text of the arguments.
    pub arguments: String,
}

#[derive(Debug, Clone)]
pub struct ToolCallDef {
    pub id: String,
    pub tool_type: String,
    pub function: FunctionCallDef,
}

/// A message as the OpenAI-compatible API reads and writes it.
#[derive(Debug, Clone)]
pub struct ChatMessage {
    pub role: String,
    pub content: Option<String>,
    pub tool_calls: Option<Vec<ToolCallDef>>,
    pub tool_call_id: Option<String>,
}

pub open spec fn def_view(c: ToolCallDef) -> (Seq<char>, Seq<char>, Seq<char>, Seq<char>) {
    (c.id@, c.tool_type@, c.function.name@, c.function.arguments@)
}

pub open spec fn sent_call(c: ToolCall) -> (Seq<char>, Seq<char>, Seq<char>, Seq<char>) {
    (c.id@, "function"@, c.name@, c.arguments@)
}

/// A message for the OpenAI-compatible API: its text parts run together as
/// the content, its tool calls as function calls.
pub fn convert_message(msg: &Message) -> (r: ChatMessage)
    ensures
        r.role@ == msg.role@,
        r.content matches Some(c) && c@ == join(text_parts(parts_view(msg.content@)), ""@),
        match msg.tool_calls {
            Some(v) => r.tool_calls matches Some(w) && w@.map_values(|c: ToolCallDef| def_view(c)) == v@.map_values(
                |c: ToolCall| sent_call(c),
            ),
            None => r.tool_calls is None,
        },
        r.tool_call_id == msg.tool_call_id,
{
    let calls = match &msg.tool_calls {
        Some(v) => {
            let mut w: Vec<ToolCallDef> = Vec::new();
            let mut i: usize = 0;
            while i < v.len()
                invariant
                    i <= v.len(),
                    w@.map_values(|c: ToolCallDef| def_view(c)) == v@.subrange(0, i as int).map_values(
                        |c: ToolCall| sent_call(c),
                    ),
                decreases v.len() - i,
            {
                let d = ToolCallDef {
                    id: v[i].id.clone(),
                    tool_type: "function".to_string(),
                    function: FunctionCallDef { name: v[i].name.clone(), arguments: v[i].arguments.clone() },
                };
                let ghost before = w@;
                w.push(d);
                assert(w@.map_values(|c: ToolCallDef| def_view(c)) =~= before.map_values(|c: ToolCallDef| def_view(c)).push(
                    sent_call(v@[i as int]),
                ));
                assert(v@.subrange(0, i + 1).map_values(|c: ToolCall| sent_call(c)) =~= v@.subrange(0, i as int).map_values(
                    |c: ToolCall| sent_call(c),
                ).push(sent_call(v@[i as int])));
                i += 1;
            }
            assert(v@.subrange(0, v.len() as int) =~= v@);
            Some(w)
        },
        None => None,
    };
    ChatMessage {
        role: msg.role.clone(),
        content: Some(msg.extract_text("")),
        tool_calls: calls,
        tool_call_id: match &msg.tool_call_id {
            Some(s) => Some(s.clone()),
            None => None,
        },
    }
}

/// What `serde_json` makes of a JSON text parsed and printed again (its
/// compact form), when it parses.
pub uninterp spec fn json_compact_result(text: Seq<char>) -> Option<Seq<char>>;

/// Parses a text with `serde_json::from_str` and prints the value with
/// `to_string`. Named, not restated.
#[verifier::external_body]
fn json_compact(text: &str) -> (r: Option<String>)
    ensures
        match r {
            Some(s) => json_compact_result(text@) == Some(s@),
            None => json_compact_result(text@) is None,
        },
{
    serde_json::from_str::<serde_json::Value>(text).ok().map(|v| v.to_string())
}

/// What `serde_json` prints for a text as a JSON string (quoted, escaped).
pub uninterp spec fn json_quote_result(text: Seq<char>) -> Seq<char>;

/// Prints a text as a JSON string with `serde_json`. Named, not restated.
#[verifier::external_body]
fn json_quote(text: &str) -> (r: String)
    ensures
        r@ == json_quote_result(text@),
{
    serde_json::Value::String(text.to_string()).to_string()
}

/// The arguments of a received tool call: the JSON it holds, or the raw text
/// under `raw` when it is not JSON.
pub open spec fn received_arguments(args: Seq<char>) -> Seq<char> {
    match json_compact_result(args) {
        Some(t) => t,
        None => "{\"raw\":"@ + json_quote_result(args) + "}"@,
    }
}

pub open spec fn received_call(c: ToolCallDef) -> (Seq<char>, Seq<char>, Seq<char>) {
    (c.id@, c.function.name@, received_arguments(c.function.arguments@))
}

fn received_arguments_exec(args: &str) -> (r: String)
    ensures
        r@ == received_arguments(args@),
{
    match json_compact(args) {
        Some(t) => t,
        None => {
            let mut v = chars_of("{\"raw\":");
            append_vec(&mut v, &chars_of(json_quote(args).as_str()));
            append_vec(&mut v, &chars_of("}"));
            string_of(&v)
        },
    }
}

/// A message received from the OpenAI-compatible API: its content (empty
/// when absent) as one text part, its function calls as tool calls.
pub fn convert_chat_message(msg: &ChatMessage) -> (r: Message)
    ensures
        r.role@ == msg.role@,
        parts_view(r.content@) == seq![(
            PartKind::Text,
            match msg.content {
                Some(c) => c@,
                None => Seq::<char>::empty(),
            },
        )],
        match msg.tool_calls {
            Some(v) => r.tool_calls matches Some(w) && w@.map_values(|c: ToolCall| crate::soul::message::call_view(c))
                == v@.map_values(|c: ToolCallDef| received_call(c)),
            None => r.tool_calls is None,
        },
        r.tool_call_id == msg.tool_call_id,
{
    let text = match &msg.content {
        Some(c) => c.clone(),
        None => String::new(),
    };
    let mut content = Vec::new();
    content.push(ContentPart::Text { text });
    let calls = match &msg.tool_calls {
        Some(v) => {
            let mut w: Vec<ToolCall> = Vec::new();
            let mut i: usize = 0;
            while i < v.len()
                invariant
                    i <= v.len(),
                    w@.map_values(|c: ToolCall| crate::soul::message::call_view(c)) == v@.subrange(
                        0,
                        i as int,
                    ).map_values(|c: ToolCallDef| received_call(c)),
                decreases v.len() - i,
            {
                let c = ToolCall {
                    id: v[i].id.clone(),
                    name: v[i].function.name.clone(),
                    arguments: received_arguments_exec(v[i].function.arguments.as_str()),
                };
                let ghost before = w@;
                w.push(c);
                assert(w@.map_values(|c: ToolCall| crate::soul::message::call_view(c)) =~= before.map_values(
                    |c: ToolCall| crate::soul::message::call_view(c),
                ).push(received_call(v@[i as int])));
                assert(v@.subrange(0, i + 1).map_values(|c: ToolCallDef| received_call(c)) =~= v@.subrange(
                    0,
                    i as int,
                ).map_values(|c: ToolCallDef| received_call(c)).push(received_call(v@[i as int])));
                i += 1;
            }
            assert(v@.subrange(0, v.len() as int) =~= v@);
            Some(w)
        },
        None => None,
    };
    Message {
        role: msg.role.clone(),
        content,
        tool_calls: calls,
        tool_call_id: match &msg.tool_call_id {
            Some(s) => Some(s.clone()),
            None => None,
        },
    }
}

/// A content block of the Anthropic API; a tool use's input is its JSON text.
#[derive(Debug, Clone)]
pub enum AnthropicContent {
    Text { text: String },
    ToolUse { id: String, name: String, input: String },
}

/// A message as the Anthropic API reads it.
#[derive(Debug, Clone)]
pub struct AnthropicMessage {
    pub role: String,
    pub content: Vec<AnthropicContent>,
}

pub enum AnthropicContentView {
    Text(Seq<char>),
    ToolUse(Seq<char>, Seq<char>, Seq<char>),
}

pub open spec fn content_view(c: AnthropicContent) -> AnthropicContentView {
    match c {
        AnthropicContent::Text { text } => AnthropicContentView::Text(text@),
        AnthropicContent::ToolUse { id, name, input } => AnthropicContentView::ToolUse(id@, name@, input@),
    }
}

pub open spec fn tool_use_of(c: ToolCall) -> AnthropicContentView {
    AnthropicContentView::ToolUse(c.id@, c.name@, c.arguments@)
}

pub open spec fn anthropic_msg_view(a: AnthropicMessage) -> (Seq<char>, Seq<AnthropicContentView>) {
    (a.role@, a.content@.map_values(|c: AnthropicContent| content_view(c)))
}

/// What the Anthropic API is sent for a message: the assistant's messages
/// as they are, every other role as the user's; its text, then a tool use
/// per call.
pub open spec fn anthropic_of(m: MessageView) -> (Seq<char>, Seq<AnthropicContentView>) {
    (
        if m.role == "assistant"@ {
            "assistant"@
        } else {
            "user"@
        },
        seq![AnthropicContentView::Text(join(text_parts(m.content), ""@))] + match m.tool_calls {
            Some(v) => v.map_values(
                |c: (Seq<char>, Seq<char>, Seq<char>)| AnthropicContentView::ToolUse(c.0, c.1, c.2),
            ),
            None => Seq::empty(),
        },
    )
}

/// A message for the Anthropic API (see `anthropic_of`).
pub fn convert_message_to_anthropic(msg: &Message) -> (r: AnthropicMessage)
    ensures
        anthropic_msg_view(r) == anthropic_of(msg@),
{
    let mut content: Vec<AnthropicContent> = Vec::new();
    content.push(AnthropicContent::Text { text: msg.extract_text("") });
    let ghost first = seq![AnthropicContentView::Text(join(text_parts(parts_view(msg.content@)), ""@))];
    assert(content@.map_values(|c: AnthropicContent| content_view(c)) =~= first);
    match &msg.tool_calls {
        Some(v) => {
            let mut i: usize = 0;
            while i < v.len()
                invariant
                    i <= v.len(),
                    content@.map_values(|c: AnthropicContent| content_view(c)) == first + v@.subrange(
                        0,
                        i as int,
                    ).map_values(|c: ToolCall| tool_use_of(c)),
                decreases v.len() - i,
            {
                let ghost before = content@;
                content.push(
                    AnthropicContent::ToolUse {
                        id: v[i].id.clone(),
                        name: v[i].name.clone(),
                        input: v[i].arguments.clone(),
                    },
                );
                assert(content@.map_values(|c: AnthropicContent| content_view(c)) =~= before.map_values(
                    |c: AnthropicContent| content_view(c),
                ).push(tool_use_of(v@[i as int])));
                assert(v@.subrange(0, i + 1).map_values(|c: ToolCall| tool_use_of(c)) =~= v@.subrange(
                    0,
                    i as int,
                ).map_values(|c: ToolCall| tool_use_of(c)).push(tool_use_of(v@[i as int])));
                i += 1;
            }
            assert(v@.subrange(0, v.len() as int) =~= v@);
        },
        None => {
            assert(first + Seq::<AnthropicContentView>::empty() =~= first);
        },
    }
    proof {
        match &msg.tool_calls {
            Some(v) => {
                assert(v@.map_values(|c: ToolCall| crate::soul::message::call_view(c)).map_values(
                    |c: (Seq<char>, Seq<char>, Seq<char>)| AnthropicContentView::ToolUse(c.0, c.1, c.2),
                ) =~= v@.map_values(|c: ToolCall| tool_use_of(c)));
            },
            None => {},
        }
    }
    let role = if eq_vec(&chars_of(msg.role.as_str()), &chars_of("assistant")) {
        "assistant".to_string()
    } else {
        "user".to_string()
    };
    AnthropicMessage { role, content }
}

/// The messages sent to the Anthropic API: the history without its system
/// messages (the system prompt travels apart), each as `anthropic_of` says.
pub fn anthropic_history(history: &Vec<Message>) -> (r: Vec<AnthropicMessage>)
    ensures
        r@.map_values(|a: AnthropicMessage| anthropic_msg_view(a)) == history@.filter(
            |m: Message| m.role@ != "system"@,
        ).map_values(|m: Message| anthropic_of(m@)),
{
    let ghost keep = |m: Message| m.role@ != "system"@;
    let mut r: Vec<AnthropicMessage> = Vec::new();
    let mut i: usize = 0;
    while i < history.len()
        invariant
            i <= history.len(),
            keep == (|m: Message| m.role@ != "system"@),
            r@.map_values(|a: AnthropicMessage| anthropic_msg_view(a)) == history@.subrange(0, i as int).filter(
                keep,
            ).map_values(|m: Message| anthropic_of(m@)),
        decreases history.len() - i,
    {
        let ghost sub = history@.subrange(0, i + 1);
        assert(sub.drop_last() =~= history@.subrange(0, i as int));
        reveal(Seq::filter);
        let ghost before = r@;
        if !eq_vec(&chars_of(history[i].role.as_str()), &chars_of("system")) {
            r.push(convert_message_to_anthropic(&history[i]));
            assert(sub.filter(keep) == history@.subrange(0, i as int).filter(keep).push(history@[i as int]));
            assert(r@.map_values(|a: AnthropicMessage| anthropic_msg_view(a)) =~= before.map_values(
                |a: AnthropicMessage| anthropic_msg_view(a),
            ).push(anthropic_of(history@[i as int]@)));
            assert(sub.filter(keep).map_values(|m: Message| anthropic_of(m@)) =~= history@.subrange(0, i as int).filter(
                keep,
            ).map_values(|m: Message| anthropic_of(m@)).push(anthropic_of(history@[i as int]@)));
        } else {
            assert(sub.filter(keep) == history@.subrange(0, i as int).filter(keep));
        }
        i += 1;
    }
    assert(history@.subrange(0, history.len() as int) =~= history@);
    r
}

/// The assistant message an Anthropic reply becomes: its texts joined by
/// newlines as one part, its tool uses as tool calls (none when it has no
/// tool use).
pub fn anthropic_reply(contents: &Vec<AnthropicContent>) -> (r: Message)
    ensures
        r.role@ == "assistant"@,
        parts_view(r.content@) == seq![(PartKind::Text, join(reply_texts(contents@), "\n"@))],
        reply_calls(contents@).len() == 0 ==> r.tool_calls is None,
        reply_calls(contents@).len() > 0 ==> (r.tool_calls matches Some(v) && v@.map_values(
            |c: ToolCall| crate::soul::message::call_view(c),
        ) == reply_calls(contents@)),
        r.tool_call_id is None,
{
    let mut texts: Vec<Vec<char>> = Vec::new();
    let mut calls: Vec<ToolCall> = Vec::new();
    let mut i: usize = 0;
    while i < contents.len()
        invariant
            i <= contents.len(),
            crate::text::vecs_view(texts@) == reply_texts(contents@.subrange(0, i as int)),
            calls@.map_values(|c: ToolCall| crate::soul::message::call_view(c)) == reply_calls(
                contents@.subrange(0, i as int),
            ),
        decreases contents.len() - i,
    {
        assert(contents@.subrange(0, i + 1).drop_last() =~= contents@.subrange(0, i as int));
        match &contents[i] {
            AnthropicContent::Text { text } => {
                let ghost before = crate::text::vecs_view(texts@);
                texts.push(chars_of(text.as_str()));
                assert(crate::text::vecs_view(texts@) =~= before.push(text@));
            },
            AnthropicContent::ToolUse { id, name, input } => {
                let ghost before = calls@;
                calls.push(ToolCall { id: id.clone(), name: name.clone(), arguments: input.clone() });
                assert(calls@.map_values(|c: ToolCall| crate::soul::message::call_view(c)) =~= before.map_values(
                    |c: ToolCall| crate::soul::message::call_view(c),
                ).push((id@, name@, input@)));
            },
        }
        i += 1;
    }
    assert(contents@.subrange(0, contents.len() as int) =~= contents@);
    let text = string_of(&join_exec(&texts, &chars_of("\n")));
    let mut content = Vec::new();
    content.push(ContentPart::Text { text });
    assert(parts_view(content@) =~= seq![(PartKind::Text, join(reply_texts(contents@), "\n"@))]);
    Message {
        role: "assistant".to_string(),
        content,
        tool_calls: if calls.len() == 0 {
            None
        } else {
            Some(calls)
        },
        tool_call_id: None,
    }
}

/// The texts of a reply's text blocks, in order.
pub open spec fn reply_texts(cs: Seq<AnthropicContent>) -> Seq<Seq<char>>
    decreases cs.len(),
{
    if cs.len() == 0 {
        Seq::empty()
    } else {
        let r = reply_texts(cs.drop_last());
        match cs.last() {
            AnthropicContent::Text { text } => r.push(text@),
            _ => r,
        }
    }
}

/// The tool uses of a reply, in order, as (id, name, arguments).
pub open spec fn reply_calls(cs: Seq<AnthropicContent>) -> Seq<(Seq<char>, Seq<char>, Seq<char>)>
    decreases cs.len(),
{
    if cs.len() == 0 {
        Seq::empty()
    } else {
        let r = reply_calls(cs.drop_last());
        match cs.last() {
            AnthropicContent::ToolUse { id, name, input } => r.push((id@, name@, input@)),
            _ => r,
        }
    }
}

} // verus!
