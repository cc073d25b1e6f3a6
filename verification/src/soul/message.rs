//! Chat messages, their content parts, tool calls and tool results.
use crate::config::ModelCapability;
use crate::text::{append_vec, chars_of, eq_vec, join, starts_with, starts_with_exec, string_of, trim, trim_vec};
use vstd::prelude::*;

verus! {

/// A content part within a message.
#[derive(Debug, Clone)]
pub enum ContentPart {
    Text { text: String },
    Think { thought: String },
    ImageUrl { url: String },
    AudioUrl { url: String },
    VideoUrl { url: String },
}

/// A content part as a value: its kind and its text.
pub enum PartKind {
    Text,
    Think,
    ImageUrl,
    AudioUrl,
    VideoUrl,
}

pub open spec fn part_view(p: ContentPart) -> (PartKind, Seq<char>) {
    match p {
        ContentPart::Text { text } => (PartKind::Text, text@),
        ContentPart::Think { thought } => (PartKind::Think, thought@),
        ContentPart::ImageUrl { url } => (PartKind::ImageUrl, url@),
        ContentPart::AudioUrl { url } => (PartKind::AudioUrl, url@),
        ContentPart::VideoUrl { url } => (PartKind::VideoUrl, url@),
    }
}

pub open spec fn parts_view(ps: Seq<ContentPart>) -> Seq<(PartKind, Seq<char>)> {
    ps.map_values(|p: ContentPart| part_view(p))
}

impl ContentPart {
    /// A copy of this part.
    pub fn copy(&self) -> (r: ContentPart)
        ensures
            part_view(r) == part_view(*self),
    {
        match self {
            ContentPart::Text { text } => ContentPart::Text { text: text.clone() },
            ContentPart::Think { thought } => ContentPart::Think { thought: thought.clone() },
            ContentPart::ImageUrl { url } => ContentPart::ImageUrl { url: url.clone() },
            ContentPart::AudioUrl { url } => ContentPart::AudioUrl { url: url.clone() },
            ContentPart::VideoUrl { url } => ContentPart::VideoUrl { url: url.clone() },
        }
    }

    /// Whether this is a text part.
    pub fn is_text(&self) -> (r: bool)
        ensures
            r == (*self is Text),
    {
        match self {
            ContentPart::Text { .. } => true,
            _ => false,
        }
    }
}

/// Copies of the parts, in order.
pub fn copy_parts(ps: &Vec<ContentPart>) -> (r: Vec<ContentPart>)
    ensures
        parts_view(r@) == parts_view(ps@),
{
    let mut r: Vec<ContentPart> = Vec::new();
    let mut i: usize = 0;
    while i < ps.len()
        invariant
            i <= ps.len(),
            parts_view(r@) == parts_view(ps@.subrange(0, i as int)),
        decreases ps.len() - i,
    {
        let p = ps[i].copy();
        let ghost before = r@;
        r.push(p);
        assert(parts_view(r@) =~= parts_view(before).push(part_view(p)));
        assert(parts_view(ps@.subrange(0, i + 1)) =~= parts_view(ps@.subrange(0, i as int)).push(
            part_view(ps@[i as int]),
        ));
        i += 1;
    }
    assert(ps@.subrange(0, ps.len() as int) =~= ps@);
    r
}

pub open spec fn system_text(m: Seq<char>) -> Seq<char> {
    "<system>"@ + m + "</system>"@
}

pub open spec fn system_reminder_text(m: Seq<char>) -> Seq<char> {
    "<system-reminder>\n"@ + m + "\n</system-reminder>"@
}

/// Wraps text in `<system>` tags.
pub fn system(message: String) -> (r: ContentPart)
    ensures
        r matches ContentPart::Text { text } && text@ == system_text(message@),
{
    let mut v = chars_of("<system>");
    append_vec(&mut v, &chars_of(message.as_str()));
    append_vec(&mut v, &chars_of("</system>"));
    ContentPart::Text { text: string_of(&v) }
}

/// Wraps text in `<system-reminder>` tags, each on a line of its own.
pub fn system_reminder(message: String) -> (r: ContentPart)
    ensures
        r matches ContentPart::Text { text } && text@ == system_reminder_text(message@),
{
    let mut v = chars_of("<system-reminder>\n");
    append_vec(&mut v, &chars_of(message.as_str()));
    append_vec(&mut v, &chars_of("\n</system-reminder>"));
    ContentPart::Text { text: string_of(&v) }
}

/// An LLM-requested tool invocation; `arguments` is the JSON text of the
/// call's arguments.
#[derive(Debug, Clone)]
pub struct ToolCall {
    pub id: String,
    pub name: String,
    pub arguments: String,
}

pub open spec fn call_view(c: ToolCall) -> (Seq<char>, Seq<char>, Seq<char>) {
    (c.id@, c.name@, c.arguments@)
}

/// A chat message for the LLM context.
#[derive(Debug, Clone)]
pub struct Message {
    pub role: String,
    pub content: Vec<ContentPart>,
    pub tool_calls: Option<Vec<ToolCall>>,
    pub tool_call_id: Option<String>,
}

/// A message as a value.
pub struct MessageView {
    pub role: Seq<char>,
    pub content: Seq<(PartKind, Seq<char>)>,
    pub tool_calls: Option<Seq<(Seq<char>, Seq<char>, Seq<char>)>>,
    pub tool_call_id: Option<Seq<char>>,
}

impl View for Message {
    type V = MessageView;

    open spec fn view(&self) -> MessageView {
        MessageView {
            role: self.role@,
            content: parts_view(self.content@),
            tool_calls: match self.tool_calls {
                Some(v) => Some(v@.map_values(|c: ToolCall| call_view(c))),
                None => None,
            },
            tool_call_id: match self.tool_call_id {
                Some(s) => Some(s@),
                None => None,
            },
        }
    }
}

pub open spec fn messages_view(ms: Seq<Message>) -> Seq<MessageView> {
    ms.map_values(|m: Message| m@)
}

/// The texts of the text parts, in order.
pub open spec fn text_parts(ps: Seq<(PartKind, Seq<char>)>) -> Seq<Seq<char>>
    decreases ps.len(),
{
    if ps.len() == 0 {
        Seq::empty()
    } else {
        let r = text_parts(ps.drop_last());
        if ps.last().0 is Text {
            r.push(ps.last().1)
        } else {
            r
        }
    }
}

fn copy_calls(v: &Vec<ToolCall>) -> (r: Vec<ToolCall>)
    ensures
        r@.map_values(|c: ToolCall| call_view(c)) == v@.map_values(|c: ToolCall| call_view(c)),
{
    let mut r: Vec<ToolCall> = Vec::new();
    let mut i: usize = 0;
    while i < v.len()
        invariant
            i <= v.len(),
            r@.map_values(|c: ToolCall| call_view(c)) == v@.subrange(0, i as int).map_values(
                |c: ToolCall| call_view(c),
            ),
        decreases v.len() - i,
    {
        let c = ToolCall { id: v[i].id.clone(), name: v[i].name.clone(), arguments: v[i].arguments.clone() };
        let ghost before = r@;
        r.push(c);
        assert(r@.map_values(|c: ToolCall| call_view(c)) =~= before.map_values(|c: ToolCall| call_view(c)).push(call_view(c)));
        assert(v@.subrange(0, i + 1).map_values(|c: ToolCall| call_view(c)) =~= v@.subrange(0, i as int).map_values(
            |c: ToolCall| call_view(c),
        ).push(call_view(v@[i as int])));
        i += 1;
    }
    assert(v@.subrange(0, v.len() as int) =~= v@);
    r
}

impl Message {
    /// A copy of this message.
    pub fn copy(&self) -> (r: Message)
        ensures
            r@ == self@,
    {
        Message {
            role: self.role.clone(),
            content: copy_parts(&self.content),
            tool_calls: match &self.tool_calls {
                Some(v) => Some(copy_calls(v)),
                None => None,
            },
            tool_call_id: match &self.tool_call_id {
                Some(s) => Some(s.clone()),
                None => None,
            },
        }
    }

    /// All text parts joined by the given separator.
    pub fn extract_text(&self, sep: &str) -> (r: String)
        ensures
            r@ == join(text_parts(parts_view(self.content@)), sep@),
    {
        let mut out: Vec<char> = Vec::new();
        let mut first = true;
        let ghost pv = parts_view(self.content@);
        let mut i: usize = 0;
        while i < self.content.len()
            invariant
                i <= self.content.len(),
                pv == parts_view(self.content@),
                first == (text_parts(pv.subrange(0, i as int)).len() == 0),
                out@ == join(text_parts(pv.subrange(0, i as int)), sep@),
            decreases self.content.len() - i,
        {
            assert(pv.subrange(0, i + 1).drop_last() =~= pv.subrange(0, i as int));
            match &self.content[i] {
                ContentPart::Text { text } => {
                    if !first {
                        append_vec(&mut out, &chars_of(sep));
                    }
                    append_vec(&mut out, &chars_of(text.as_str()));
                    first = false;
                    proof {
                        let tp = text_parts(pv.subrange(0, i as int));
                        assert(text_parts(pv.subrange(0, i + 1)) == tp.push(text@));
                        assert(tp.push(text@).drop_last() =~= tp);
                        if tp.len() == 0 {
                            assert(out@ =~= join(tp.push(text@), sep@));
                        }
                    }
                },
                _ => {},
            }
            i += 1;
        }
        assert(pv.subrange(0, self.content.len() as int) =~= pv);
        string_of(&out)
    }
}

/// Whether a message is an internal system-reminder user message: a user
/// message of one text part that starts (after whitespace) with the
/// reminder tag.
pub open spec fn is_system_reminder_spec(m: MessageView) -> bool {
    &&& m.role == "user"@
    &&& m.content.len() == 1
    &&& m.content[0].0 is Text
    &&& starts_with(trim(m.content[0].1), "<system-reminder>"@)
}

/// Checks whether a message is an internal system-reminder user message.
pub fn is_system_reminder_message(message: &Message) -> (r: bool)
    ensures
        r == is_system_reminder_spec(message@),
{
    if !eq_vec(&chars_of(message.role.as_str()), &chars_of("user")) || message.content.len() != 1 {
        return false;
    }
    match &message.content[0] {
        ContentPart::Text { text } => starts_with_exec(
            &trim_vec(&chars_of(text.as_str())),
            &chars_of("<system-reminder>"),
        ),
        _ => false,
    }
}

/// Result of a tool execution.
#[derive(Debug, Clone)]
pub struct ToolResult {
    pub tool_call_id: String,
    pub return_value: ToolReturnValue,
}

/// What a tool returned.
#[derive(Debug, Clone)]
pub enum ToolReturnValue {
    Success { output: String, message: Option<String> },
    Error { error: String },
    /// Rich multi-part result.
    Parts { parts: Vec<ContentPart> },
}

/// The plain text of one part: its text, or a bracketed note for media.
pub open spec fn part_plain_text(p: (PartKind, Seq<char>)) -> Seq<char> {
    match p.0 {
        PartKind::Text => p.1,
        PartKind::Think => p.1,
        PartKind::ImageUrl => "[Image: "@ + p.1 + "]"@,
        PartKind::AudioUrl => "[Audio: "@ + p.1 + "]"@,
        PartKind::VideoUrl => "[Video: "@ + p.1 + "]"@,
    }
}

/// The plain text of a tool's return value.
pub open spec fn return_text_spec(v: ToolReturnValue) -> Seq<char> {
    match v {
        ToolReturnValue::Success { output, .. } => output@,
        ToolReturnValue::Error { error } => "Error: "@ + error@,
        ToolReturnValue::Parts { parts } => join(
            parts_view(parts@).map_values(|p: (PartKind, Seq<char>)| part_plain_text(p)),
            "\n"@,
        ),
    }
}

fn bracketed(prefix: &str, url: &String) -> (r: Vec<char>)
    ensures
        r@ == prefix@ + url@ + "]"@,
{
    let mut v = chars_of(prefix);
    append_vec(&mut v, &chars_of(url.as_str()));
    append_vec(&mut v, &chars_of("]"));
    v
}

fn plain_text(p: &ContentPart) -> (r: Vec<char>)
    ensures
        r@ == part_plain_text(part_view(*p)),
{
    match p {
        ContentPart::Text { text } => chars_of(text.as_str()),
        ContentPart::Think { thought } => chars_of(thought.as_str()),
        ContentPart::ImageUrl { url } => bracketed("[Image: ", url),
        ContentPart::AudioUrl { url } => bracketed("[Audio: ", url),
        ContentPart::VideoUrl { url } => bracketed("[Video: ", url),
    }
}

impl ToolReturnValue {
    /// A plain-text rendering of the return value (see `return_text_spec`).
    pub fn extract_text(&self) -> (r: String)
        ensures
            r@ == return_text_spec(*self),
    {
        match self {
            ToolReturnValue::Success { output, .. } => output.clone(),
            ToolReturnValue::Error { error } => {
                let mut v = chars_of("Error: ");
                append_vec(&mut v, &chars_of(error.as_str()));
                string_of(&v)
            },
            ToolReturnValue::Parts { parts } => {
                let ghost texts = parts_view(parts@).map_values(|p: (PartKind, Seq<char>)| part_plain_text(p));
                let mut pieces: Vec<Vec<char>> = Vec::new();
                let mut i: usize = 0;
                while i < parts.len()
                    invariant
                        i <= parts.len(),
                        texts == parts_view(parts@).map_values(|p: (PartKind, Seq<char>)| part_plain_text(p)),
                        pieces@.map_values(|p: Vec<char>| p@) == texts.subrange(0, i as int),
                    decreases parts.len() - i,
                {
                    let t = plain_text(&parts[i]);
                    let ghost before = pieces@;
                    pieces.push(t);
                    assert(pieces@.map_values(|p: Vec<char>| p@) =~= before.map_values(|p: Vec<char>| p@).push(t@));
                    assert(texts.subrange(0, i + 1) =~= texts.subrange(0, i as int).push(texts[i as int]));
                    i += 1;
                }
                assert(texts.subrange(0, parts.len() as int) =~= texts);
                let out = crate::text::join_exec(&pieces, &chars_of("\n"));
                string_of(&out)
            },
        }
    }
}

/// The content of the message a tool result becomes: an error as a system
/// note; an output after its optional message note; rich parts as they
/// are. Empty content says so; content without text is introduced by a note.
pub open spec fn tool_content_spec(v: ToolReturnValue) -> Seq<(PartKind, Seq<char>)> {
    match v {
        ToolReturnValue::Error { error } => seq![(PartKind::Text, system_text("ERROR: "@ + error@))],
        ToolReturnValue::Success { output, message } => {
            let c = (match message {
                Some(m) => seq![(PartKind::Text, system_text(m@))],
                None => Seq::empty(),
            }) + (if output@.len() > 0 {
                seq![(PartKind::Text, output@)]
            } else {
                Seq::empty()
            });
            fill_empty(c)
        },
        ToolReturnValue::Parts { parts } => fill_empty(parts_view(parts@)),
    }
}

pub open spec fn fill_empty(c: Seq<(PartKind, Seq<char>)>) -> Seq<(PartKind, Seq<char>)> {
    if c.len() == 0 {
        seq![(PartKind::Text, system_text("Tool output is empty."@))]
    } else if !(exists|i: int| 0 <= i < c.len() && c[i].0 is Text) {
        seq![(PartKind::Text, system_text("Tool returned non-text content."@))] + c
    } else {
        c
    }
}

fn fill_empty_exec(c: Vec<ContentPart>) -> (r: Vec<ContentPart>)
    ensures
        parts_view(r@) == fill_empty(parts_view(c@)),
{
    if c.len() == 0 {
        let mut r = Vec::new();
        r.push(system("Tool output is empty.".to_string()));
        assert(parts_view(r@) =~= seq![(PartKind::Text, system_text("Tool output is empty."@))]);
        return r;
    }
    let mut i: usize = 0;
    let mut any = false;
    while i < c.len()
        invariant
            i <= c.len(),
            any == (exists|j: int| 0 <= j < i && parts_view(c@)[j].0 is Text),
        decreases c.len() - i,
    {
        if c[i].is_text() {
            assert(parts_view(c@)[i as int].0 is Text);
            any = true;
        } else {
            assert(!(parts_view(c@)[i as int].0 is Text));
        }
        i += 1;
    }
    if any {
        c
    } else {
        let mut r = Vec::new();
        r.push(system("Tool returned non-text content.".to_string()));
        let mut k: usize = 0;
        let ghost first = r@;
        while k < c.len()
            invariant
                k <= c.len(),
                r@.len() == k + 1,
                r@[0] == first[0],
                forall|j: int| 0 <= j < k ==> part_view(r@[j + 1]) == part_view(c@[j]),
            decreases c.len() - k,
        {
            r.push(c[k].copy());
            k += 1;
        }
        assert(parts_view(r@) =~= seq![(PartKind::Text, system_text("Tool returned non-text content."@))] + parts_view(c@));
        r
    }
}

/// Converts a tool result to a `tool` message answering its call.
pub fn tool_result_to_message(tool_result: &ToolResult) -> (r: Message)
    ensures
        r.role@ == "tool"@,
        parts_view(r.content@) == tool_content_spec(tool_result.return_value),
        r.tool_calls is None,
        r.tool_call_id matches Some(id) && id@ == tool_result.tool_call_id@,
{
    let content = match &tool_result.return_value {
        ToolReturnValue::Error { error } => {
            let mut v = chars_of("ERROR: ");
            append_vec(&mut v, &chars_of(error.as_str()));
            let mut c = Vec::new();
            c.push(system(string_of(&v)));
            assert(parts_view(c@) =~= tool_content_spec(tool_result.return_value));
            c
        },
        ToolReturnValue::Success { output, message } => {
            let mut c: Vec<ContentPart> = Vec::new();
            match message {
                Some(m) => {
                    c.push(system(m.clone()));
                    assert(parts_view(c@) =~= seq![(PartKind::Text, system_text(m@))]);
                },
                None => {
                    assert(parts_view(c@) =~= Seq::<(PartKind, Seq<char>)>::empty());
                },
            }
            let ghost c1 = parts_view(c@);
            if chars_of(output.as_str()).len() > 0 {
                c.push(ContentPart::Text { text: output.clone() });
                assert(parts_view(c@) =~= c1 + seq![(PartKind::Text, output@)]);
            } else {
                assert(parts_view(c@) =~= c1 + Seq::<(PartKind, Seq<char>)>::empty());
            }
            fill_empty_exec(c)
        },
        ToolReturnValue::Parts { parts } => fill_empty_exec(copy_parts(parts)),
    };
    Message {
        role: "tool".to_string(),
        content,
        tool_calls: None,
        tool_call_id: Some(tool_result.tool_call_id.clone()),
    }
}

/// The capability a part needs: images, video, thinking.
pub open spec fn part_needs(k: PartKind) -> Option<ModelCapability> {
    match k {
        PartKind::ImageUrl => Some(ModelCapability::ImageIn),
        PartKind::VideoUrl => Some(ModelCapability::VideoIn),
        PartKind::Think => Some(ModelCapability::Thinking),
        _ => None,
    }
}

/// The capabilities the parts need.
pub open spec fn needed_capabilities(ps: Seq<(PartKind, Seq<char>)>) -> Set<ModelCapability> {
    Set::new(|c: ModelCapability| exists|i: int| 0 <= i < ps.len() && part_needs(#[trigger] ps[i].0) == Some(c))
}

/// The capabilities a message needs that the model lacks, each once.
pub fn check_message(message: &Message, model_capabilities: &Vec<ModelCapability>) -> (r: Vec<ModelCapability>)
    ensures
        r@.no_duplicates(),
        r@.to_set() == needed_capabilities(parts_view(message.content@)).difference(model_capabilities@.to_set()),
{
    let ghost pv = parts_view(message.content@);
    let mut image = false;
    let mut video = false;
    let mut think = false;
    let mut i: usize = 0;
    while i < message.content.len()
        invariant
            i <= message.content.len(),
            pv == parts_view(message.content@),
            image == (exists|j: int| 0 <= j < i && pv[j].0 is ImageUrl),
            video == (exists|j: int| 0 <= j < i && pv[j].0 is VideoUrl),
            think == (exists|j: int| 0 <= j < i && pv[j].0 is Think),
        decreases message.content.len() - i,
    {
        match &message.content[i] {
            ContentPart::ImageUrl { .. } => {
                assert(pv[i as int].0 is ImageUrl);
                image = true;
            },
            ContentPart::VideoUrl { .. } => {
                assert(pv[i as int].0 is VideoUrl);
                video = true;
            },
            ContentPart::Think { .. } => {
                assert(pv[i as int].0 is Think);
                think = true;
            },
            _ => {},
        }
        i += 1;
    }
    let mut r: Vec<ModelCapability> = Vec::new();
    if image && !has_cap(model_capabilities, ModelCapability::ImageIn) {
        r.push(ModelCapability::ImageIn);
    }
    if video && !has_cap(model_capabilities, ModelCapability::VideoIn) {
        r.push(ModelCapability::VideoIn);
    }
    if think && !has_cap(model_capabilities, ModelCapability::Thinking) {
        r.push(ModelCapability::Thinking);
    }
    proof {
        let need = needed_capabilities(pv);
        assert(need.contains(ModelCapability::ImageIn) == image) by {
            if image {
                let j = choose|j: int| 0 <= j < pv.len() && pv[j].0 is ImageUrl;
                assert(need.contains(ModelCapability::ImageIn));
            }
        }
        assert(need.contains(ModelCapability::VideoIn) == video) by {
            if video {
                let j = choose|j: int| 0 <= j < pv.len() && pv[j].0 is VideoUrl;
                assert(need.contains(ModelCapability::VideoIn));
            }
        }
        assert(need.contains(ModelCapability::Thinking) == think) by {
            if think {
                let j = choose|j: int| 0 <= j < pv.len() && pv[j].0 is Think;
                assert(need.contains(ModelCapability::Thinking));
            }
        }
        assert(!need.contains(ModelCapability::AlwaysThinking));
        assert(r@.to_set() =~= need.difference(model_capabilities@.to_set())) by {
            assert forall|c: ModelCapability| r@.to_set().contains(c) <==> need.difference(model_capabilities@.to_set()).contains(c) by {
                if r@.contains(c) {
                    let k = choose|k: int| 0 <= k < r@.len() && r@[k] == c;
                }
                match c {
                    ModelCapability::ImageIn => {
                        if image && !model_capabilities@.contains(c) {
                            assert(r@[0] == c);
                        }
                    },
                    ModelCapability::VideoIn => {
                        if video && !model_capabilities@.contains(c) {
                            assert(r@.contains(c)) by {
                                if image && !model_capabilities@.contains(ModelCapability::ImageIn) {
                                    assert(r@[1] == c);
                                } else {
                                    assert(r@[0] == c);
                                }
                            }
                        }
                    },
                    ModelCapability::Thinking => {
                        if think && !model_capabilities@.contains(c) {
                            assert(r@.contains(c)) by {
                                assert(r@[r@.len() - 1] == c);
                            }
                        }
                    },
                    _ => {},
                }
            }
        }
    }
    r
}

fn has_cap(v: &Vec<ModelCapability>, c: ModelCapability) -> (r: bool)
    ensures
        r == v@.contains(c),
{
    let mut i: usize = 0;
    while i < v.len()
        invariant
            i <= v.len(),
            forall|j: int| 0 <= j < i ==> v@[j] != c,
        decreases v.len() - i,
    {
        if v[i] == c {
            return true;
        }
        i += 1;
    }
    false
}

} // verus!
