//! The agent control protocol's JSON-RPC methods: which method a request
//! names, which errors it is answered with, and what a tool call answers.
use crate::soul::message::{parts_view, ContentPart, PartKind, ToolReturnValue};
use crate::text::{append_vec, chars_of, eq_vec, string_of, strings_view};
use vstd::prelude::*;

verus! {

/// The protocol version the server speaks.
pub open spec fn protocol_version_spec() -> Seq<char> {
    "2024-11-05"@
}

/// The name the server gives itself.
pub open spec fn server_name_spec() -> Seq<char> {
    "kimi-cli-rs-acp"@
}

/// What `initialize` answers: the protocol version, the server's name and
/// version, and that it offers tools.
#[derive(Debug, Clone)]
pub struct InitializeResult {
    pub protocol_version: String,
    pub server_name: String,
    pub server_version: String,
}

/// The answer to `initialize`, for a server of the given version.
pub fn initialize_result(version: &str) -> (r: InitializeResult)
    ensures
        r.protocol_version@ == protocol_version_spec(),
        r.server_name@ == server_name_spec(),
        r.server_version@ == version@,
{
    InitializeResult {
        protocol_version: "2024-11-05".to_string(),
        server_name: "kimi-cli-rs-acp".to_string(),
        server_version: version.to_string(),
    }
}

/// The methods the server answers.
#[derive(Debug, Clone, Copy, PartialEq, Eq, Structural)]
pub enum RpcMethod {
    Initialize,
    ToolsList,
    ToolsCall,
    Unknown,
}

/// Which method a request names.
pub open spec fn rpc_method_spec(method: Seq<char>) -> RpcMethod {
    if method == "initialize"@ {
        RpcMethod::Initialize
    } else if method == "tools/list"@ {
        RpcMethod::ToolsList
    } else if method == "tools/call"@ {
        RpcMethod::ToolsCall
    } else {
        RpcMethod::Unknown
    }
}

/// Reads the method a request names.
pub fn rpc_method(method: &str) -> (r: RpcMethod)
    ensures
        r == rpc_method_spec(method@),
{
    let m = chars_of(method);
    if eq_vec(&m, &chars_of("initialize")) {
        RpcMethod::Initialize
    } else if eq_vec(&m, &chars_of("tools/list")) {
        RpcMethod::ToolsList
    } else if eq_vec(&m, &chars_of("tools/call")) {
        RpcMethod::ToolsCall
    } else {
        RpcMethod::Unknown
    }
}

/// A JSON-RPC error: its code and message.
#[derive(Debug, Clone)]
pub struct RpcError {
    pub code: i32,
    pub message: String,
}

/// The error a request for an unknown method is answered with.
pub fn method_not_found(method: &str) -> (r: RpcError)
    ensures
        r.code == -32601,
        r.message@ == "Method not found: "@ + method@,
{
    let mut m = chars_of("Method not found: ");
    append_vec(&mut m, &chars_of(method));
    RpcError { code: -32601, message: string_of(&m) }
}

/// Which tool a `tools/call` request may run: its `name` parameter, when
/// it is a non-empty text naming one of the tools; else the error the
/// request is answered with.
pub open spec fn tools_call_target_spec(name: Option<Seq<char>>, tools: Seq<Seq<char>>) -> Result<Seq<char>, (int, Seq<char>)> {
    let n = match name {
        Some(s) => s,
        None => Seq::empty(),
    };
    if n.len() == 0 {
        Err((-32602, "Missing tool name"@))
    } else if !tools.contains(n) {
        Err((-32602, "Tool not found: "@ + n))
    } else {
        Ok(n)
    }
}

/// Checks the tool a `tools/call` request names against the tools held.
pub fn tools_call_target(name: Option<&str>, tools: &Vec<String>) -> (r: Result<String, RpcError>)
    ensures
        match tools_call_target_spec(
            match name {
                Some(s) => Some(s@),
                None => None,
            },
            strings_view(tools@),
        ) {
            Ok(n) => r matches Ok(t) && t@ == n,
            Err((code, message)) => r matches Err(e) && e.code == code && e.message@ == message,
        },
{
    let n = match name {
        Some(s) => chars_of(s),
        None => Vec::new(),
    };
    if n.len() == 0 {
        return Err(RpcError { code: -32602, message: "Missing tool name".to_string() });
    }
    let mut i: usize = 0;
    while i < tools.len()
        invariant
            i <= tools.len(),
            n@.len() > 0,
            n@ == (match name {
                Some(s) => s@,
                None => Seq::<char>::empty(),
            }),
            forall|j: int| 0 <= j < i ==> tools@[j]@ != n@,
        decreases tools.len() - i,
    {
        if eq_vec(&chars_of(tools[i].as_str()), &n) {
            assert(strings_view(tools@)[i as int] == n@);
            assert(strings_view(tools@).contains(n@));
            return Ok(string_of(&n));
        }
        i += 1;
    }
    assert(!strings_view(tools@).contains(n@)) by {
        if strings_view(tools@).contains(n@) {
            let k = choose|k: int| 0 <= k < strings_view(tools@).len() && strings_view(tools@)[k] == n@;
            assert(tools@[k]@ == n@);
        }
    }
    let mut m = chars_of("Tool not found: ");
    append_vec(&mut m, &n);
    Err(RpcError { code: -32602, message: string_of(&m) })
}

/// One item of a tool call's answer: its type, and its text or data.
#[derive(Debug, Clone)]
pub enum AcpContent {
    Text { text: String },
    Image { data: String },
    Audio { data: String },
    Video { data: String },
}

/// An answer item as a value: its type name and its text or data.
pub open spec fn content_view(c: AcpContent) -> (Seq<char>, Seq<char>) {
    match c {
        AcpContent::Text { text } => ("text"@, text@),
        AcpContent::Image { data } => ("image"@, data@),
        AcpContent::Audio { data } => ("audio"@, data@),
        AcpContent::Video { data } => ("video"@, data@),
    }
}

/// The answer item a part of a tool's result becomes: media by their URL,
/// thoughts as text marked `[think]`.
pub open spec fn part_content(p: (PartKind, Seq<char>)) -> (Seq<char>, Seq<char>) {
    match p.0 {
        PartKind::Text => ("text"@, p.1),
        PartKind::ImageUrl => ("image"@, p.1),
        PartKind::AudioUrl => ("audio"@, p.1),
        PartKind::VideoUrl => ("video"@, p.1),
        PartKind::Think => ("text"@, "[think] "@ + p.1),
    }
}

/// What a tool call answers: the items of the tool's result, and whether
/// it is an error. An output or an error is one text item.
pub open spec fn tool_call_answer_spec(v: ToolReturnValue) -> (Seq<(Seq<char>, Seq<char>)>, bool) {
    match v {
        ToolReturnValue::Success { output, .. } => (seq![("text"@, output@)], false),
        ToolReturnValue::Error { error } => (seq![("text"@, error@)], true),
        ToolReturnValue::Parts { parts } => (
            parts_view(parts@).map_values(|p: (PartKind, Seq<char>)| part_content(p)),
            false,
        ),
    }
}

fn content_of(p: &ContentPart) -> (r: AcpContent)
    ensures
        content_view(r) == part_content(crate::soul::message::part_view(*p)),
{
    match p {
        ContentPart::Text { text } => AcpContent::Text { text: text.clone() },
        ContentPart::ImageUrl { url } => AcpContent::Image { data: url.clone() },
        ContentPart::AudioUrl { url } => AcpContent::Audio { data: url.clone() },
        ContentPart::VideoUrl { url } => AcpContent::Video { data: url.clone() },
        ContentPart::Think { thought } => {
            let mut t = chars_of("[think] ");
            append_vec(&mut t, &chars_of(thought.as_str()));
            AcpContent::Text { text: string_of(&t) }
        },
    }
}

/// The answer to a tool call, from the tool's result.
pub fn tool_call_answer(v: ToolReturnValue) -> (r: (Vec<AcpContent>, bool))
    ensures
        (r.0@.map_values(|c: AcpContent| content_view(c)), r.1) == tool_call_answer_spec(v),
{
    match v {
        ToolReturnValue::Success { output, .. } => {
            let r = vec![AcpContent::Text { text: output }];
            assert(r@.map_values(|c: AcpContent| content_view(c)) =~= seq![("text"@, output@)]);
            (r, false)
        },
        ToolReturnValue::Error { error } => {
            let r = vec![AcpContent::Text { text: error }];
            assert(r@.map_values(|c: AcpContent| content_view(c)) =~= seq![("text"@, error@)]);
            (r, true)
        },
        ToolReturnValue::Parts { parts } => {
            let ghost want = parts_view(parts@).map_values(|p: (PartKind, Seq<char>)| part_content(p));
            let mut out: Vec<AcpContent> = Vec::new();
            let mut i: usize = 0;
            while i < parts.len()
                invariant
                    i <= parts.len(),
                    want == parts_view(parts@).map_values(|p: (PartKind, Seq<char>)| part_content(p)),
                    out@.map_values(|c: AcpContent| content_view(c)) == want.subrange(0, i as int),
                decreases parts.len() - i,
            {
                let c = content_of(&parts[i]);
                let ghost before = out@;
                out.push(c);
                assert(out@.map_values(|c: AcpContent| content_view(c)) =~= before.map_values(
                    |c: AcpContent| content_view(c),
                ).push(content_view(c)));
                assert(want.subrange(0, i + 1) =~= want.subrange(0, i as int).push(want[i as int]));
                i += 1;
            }
            assert(want.subrange(0, parts.len() as int) =~= want);
            (out, false)
        },
    }
}

} // verus!
