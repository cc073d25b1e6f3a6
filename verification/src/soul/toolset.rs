//! The toolset's rules: which tool names are built in, when a call is
//! answered without running a tool, what a tool's output looks like to the
//! hooks, and the state of the MCP servers whose tools it holds.
use crate::error::KimiCliError;
use crate::mcp::{McpServerInfo, McpServerSnapshot, McpServerStatus, McpStatusSnapshot};
use crate::soul::btw::side_denial_spec;
use crate::soul::message::{parts_view, ContentPart, PartKind, ToolCall, ToolResult, ToolReturnValue};
use crate::text::{append_vec, chars_of, eq_vec, rfind_char, rfind_char_exec, string_of, strings_view, sub_vec};
use vstd::prelude::*;

verus! {

/// A tool name without its module prefix: what follows the last `:`.
pub open spec fn normalize_tool_name_spec(name: Seq<char>) -> Seq<char> {
    match rfind_char(name, ':') {
        Some(i) => name.subrange(i + 1, name.len() as int),
        None => name,
    }
}

/// Strips a module prefix from a tool name.
pub fn normalize_tool_name(name: &str) -> (r: String)
    ensures
        r@ == normalize_tool_name_spec(name@),
{
    let v = chars_of(name);
    match rfind_char_exec(&v, ':') {
        Some(i) => string_of(&sub_vec(&v, i + 1, v.len())),
        None => string_of(&v),
    }
}

/// The tools the toolset builds itself.
pub open spec fn is_builtin_tool(name: Seq<char>) -> bool {
    ||| name == "ReadFile"@
    ||| name == "WriteFile"@
    ||| name == "StrReplaceFile"@
    ||| name == "Glob"@
    ||| name == "Grep"@
    ||| name == "ReadMediaFile"@
    ||| name == "Shell"@
    ||| name == "SearchWeb"@
    ||| name == "FetchURL"@
    ||| name == "AskUserQuestion"@
    ||| name == "EnterPlanMode"@
    ||| name == "ExitPlanMode"@
    ||| name == "Think"@
    ||| name == "SetTodoList"@
    ||| name == "SendDMail"@
    ||| name == "TaskOutput"@
    ||| name == "TaskList"@
    ||| name == "TaskStop"@
}

/// What a requested tool name stands for.
#[derive(Debug, Clone)]
pub enum ToolKind {
    /// A built-in tool, by its name without prefix.
    Builtin(String),
    /// The agent tool, which the agent loader adds.
    Agent,
    /// A name no tool has, without prefix.
    Unknown(String),
}

fn is_named(v: &Vec<char>, name: &str) -> (r: bool)
    ensures
        r == (v@ == name@),
{
    eq_vec(v, &chars_of(name))
}

/// Classifies a requested tool name (its prefix stripped).
pub fn classify_tool(name: &str) -> (r: ToolKind)
    ensures
        ({
            let s = normalize_tool_name_spec(name@);
            if is_builtin_tool(s) {
                r matches ToolKind::Builtin(b) && b@ == s
            } else if s == "Agent"@ {
                r is Agent
            } else {
                r matches ToolKind::Unknown(u) && u@ == s
            }
        }),
{
    let s = normalize_tool_name(name);
    let v = chars_of(s.as_str());
    let builtin = is_named(&v, "ReadFile") || is_named(&v, "WriteFile") || is_named(&v, "StrReplaceFile")
        || is_named(&v, "Glob") || is_named(&v, "Grep") || is_named(&v, "ReadMediaFile")
        || is_named(&v, "Shell") || is_named(&v, "SearchWeb") || is_named(&v, "FetchURL")
        || is_named(&v, "AskUserQuestion") || is_named(&v, "EnterPlanMode") || is_named(
        &v,
        "ExitPlanMode",
    ) || is_named(&v, "Think") || is_named(&v, "SetTodoList") || is_named(&v, "SendDMail")
        || is_named(&v, "TaskOutput") || is_named(&v, "TaskList") || is_named(&v, "TaskStop");
    if builtin {
        ToolKind::Builtin(s)
    } else if is_named(&v, "Agent") {
        ToolKind::Agent
    } else {
        ToolKind::Unknown(s)
    }
}

/// The error a missing tool is answered with.
pub open spec fn tool_not_found_spec(name: Seq<char>) -> Seq<char> {
    "Tool '"@ + name + "' not found"@
}

/// Whether `r` is the error result for `call` with the given message.
pub open spec fn error_result(r: ToolResult, call: ToolCall, message: Seq<char>) -> bool {
    &&& r.tool_call_id@ == call.id@
    &&& r.return_value matches ToolReturnValue::Error { error } && error@ == message
}

fn error_for(call: &ToolCall, message: Vec<char>) -> (r: ToolResult)
    ensures
        error_result(r, *call, message@),
{
    ToolResult { tool_call_id: call.id.clone(), return_value: ToolReturnValue::Error { error: string_of(&message) } }
}

/// The answer to a tool call given without running a tool: every call is
/// refused by a toolset that denies all calls, and a call of a tool it does
/// not hold is an error. `None` means the tool runs.
pub fn answer_without_running(deny_all: bool, call: &ToolCall, found: bool) -> (r: Option<ToolResult>)
    ensures
        deny_all ==> (r matches Some(t) && error_result(t, *call, side_denial_spec())),
        !deny_all && !found ==> (r matches Some(t) && error_result(t, *call, tool_not_found_spec(call.name@))),
        !deny_all && found ==> r is None,
{
    if deny_all {
        return Some(error_for(call, chars_of("Tool calls are disabled for side questions. Answer with text only.")));
    }
    if !found {
        let mut m = chars_of("Tool '");
        append_vec(&mut m, &chars_of(call.name.as_str()));
        append_vec(&mut m, &chars_of("' not found"));
        return Some(error_for(call, m));
    }
    None
}

/// The answer to a call that a hook blocked before the tool ran.
pub fn hook_blocked_result(call: &ToolCall, reason: &str) -> (r: ToolResult)
    ensures
        error_result(r, *call, "Blocked by hook: "@ + reason@),
{
    let mut m = chars_of("Blocked by hook: ");
    append_vec(&mut m, &chars_of(reason));
    error_for(call, m)
}

/// The first `n` characters of a text.
pub open spec fn first_chars(s: Seq<char>, n: nat) -> Seq<char> {
    if s.len() <= n {
        s
    } else {
        s.subrange(0, n as int)
    }
}

/// The text a part gives the hooks: text and thoughts as they are, nothing
/// for media.
pub open spec fn preview_part(p: (PartKind, Seq<char>)) -> Seq<char> {
    match p.0 {
        PartKind::Text => p.1,
        PartKind::Think => p.1,
        _ => Seq::empty(),
    }
}

/// The texts of parts run together.
pub open spec fn concat_previews(ps: Seq<(PartKind, Seq<char>)>) -> Seq<char>
    decreases ps.len(),
{
    if ps.len() == 0 {
        Seq::empty()
    } else {
        concat_previews(ps.drop_last()) + preview_part(ps.last())
    }
}

/// What the after-use hooks are shown of a tool's result: its output or
/// error, or its parts' texts run together, cut to 2000 characters.
pub open spec fn output_preview_spec(v: ToolReturnValue) -> Seq<char> {
    first_chars(
        match v {
            ToolReturnValue::Success { output, .. } => output@,
            ToolReturnValue::Error { error } => error@,
            ToolReturnValue::Parts { parts } => concat_previews(parts_view(parts@)),
        },
        2000,
    )
}

/// The preview of a tool's result that the after-use hooks receive.
pub fn output_preview(v: &ToolReturnValue) -> (r: String)
    ensures
        r@ == output_preview_spec(*v),
{
    let full: Vec<char> = match v {
        ToolReturnValue::Success { output, .. } => chars_of(output.as_str()),
        ToolReturnValue::Error { error } => chars_of(error.as_str()),
        ToolReturnValue::Parts { parts } => {
            let ghost pv = parts_view(parts@);
            let mut out: Vec<char> = Vec::new();
            let mut i: usize = 0;
            while i < parts.len()
                invariant
                    i <= parts.len(),
                    pv == parts_view(parts@),
                    out@ == concat_previews(pv.subrange(0, i as int)),
                decreases parts.len() - i,
            {
                assert(pv.subrange(0, i + 1).drop_last() =~= pv.subrange(0, i as int));
                match &parts[i] {
                    ContentPart::Text { text } => append_vec(&mut out, &chars_of(text.as_str())),
                    ContentPart::Think { thought } => append_vec(&mut out, &chars_of(thought.as_str())),
                    _ => {
                        assert(out@ + Seq::<char>::empty() =~= out@);
                    },
                }
                i += 1;
            }
            assert(pv.subrange(0, parts.len() as int) =~= pv);
            out
        },
    };
    if full.len() <= 2000 {
        string_of(&full)
    } else {
        string_of(&sub_vec(&full, 0, 2000))
    }
}


/// An MCP server as the toolset sees it: its name, status, tool names and
/// connection.
pub type McpEntryView<C> = (Seq<char>, McpServerStatus, Seq<Seq<char>>, Option<C>);

pub open spec fn entry_view<C>(e: (String, McpServerInfo<C>)) -> McpEntryView<C> {
    (e.0@, e.1.status, strings_view(e.1.tool_names@), e.1.connection)
}

/// The position of the server with the given name.
pub open spec fn entry_pos<C>(v: Seq<McpEntryView<C>>, name: Seq<char>) -> Option<int> {
    if exists|i: int| 0 <= i < v.len() && v[i].0 == name {
        Some(choose|i: int| 0 <= i < v.len() && v[i].0 == name)
    } else {
        None
    }
}

/// No two servers share a name.
pub open spec fn names_distinct<C>(v: Seq<McpEntryView<C>>) -> bool {
    forall|a: int, b: int| 0 <= a < b < v.len() ==> v[a].0 != v[b].0
}

/// The servers after registering `names`: each name not yet present is
/// added, pending, in the order given.
pub open spec fn pending_added<C>(v: Seq<McpEntryView<C>>, names: Seq<Seq<char>>) -> Seq<McpEntryView<C>>
    decreases names.len(),
{
    if names.len() == 0 {
        v
    } else {
        let r = pending_added(v, names.drop_last());
        if exists|i: int| 0 <= i < r.len() && r[i].0 == names.last() {
            r
        } else {
            r.push((names.last(), McpServerStatus::Pending, Seq::empty(), None))
        }
    }
}

/// Starting to connect a server: a pending server becomes connecting and
/// the answer is `true`; a server that is not pending, or not registered,
/// is left alone and the answer is `false`.
pub open spec fn begin_connect_spec<C>(v: Seq<McpEntryView<C>>, name: Seq<char>) -> (bool, Seq<McpEntryView<C>>) {
    match entry_pos(v, name) {
        Some(i) => if v[i].1 == McpServerStatus::Pending {
            (true, v.update(i, (v[i].0, McpServerStatus::Connecting, v[i].2, v[i].3)))
        } else {
            (false, v)
        },
        None => (false, v),
    }
}

/// A server is connected at most once: once connecting has begun, asking
/// again for the same name starts nothing.
pub proof fn lemma_connect_begins_once<C>(v: Seq<McpEntryView<C>>, name: Seq<char>)
    requires
        names_distinct(v),
    ensures
        !begin_connect_spec(begin_connect_spec(v, name).1, name).0,
{
    let w = begin_connect_spec(v, name).1;
    if let Some(i) = entry_pos(v, name) {
        if v[i].1 == McpServerStatus::Pending {
            assert(w[i].0 == name);
            let j = choose|j: int| 0 <= j < w.len() && w[j].0 == name;
            assert(j == i) by {
                if j != i {
                    assert(w[j].0 == v[j].0);
                    if j < i {
                        assert(v[j].0 != v[i].0);
                    } else {
                        assert(v[i].0 != v[j].0);
                    }
                }
            }
        }
    }
}

/// Some server has the name.
pub open spec fn has_name<C>(v: Seq<McpEntryView<C>>, name: Seq<char>) -> bool {
    exists|i: int| 0 <= i < v.len() && v[i].0 == name
}

/// Every name registered is present afterwards, and registering names
/// that are all present already changes nothing.
proof fn lemma_pending_added_names<C>(v: Seq<McpEntryView<C>>, names: Seq<Seq<char>>)
    ensures
        forall|k: int| 0 <= k < names.len() ==> has_name(pending_added(v, names), #[trigger] names[k]),
        (forall|k: int| 0 <= k < names.len() ==> has_name(v, #[trigger] names[k])) ==> pending_added(v, names) == v,
        pending_added(v, names).len() >= v.len(),
        forall|i: int| 0 <= i < v.len() ==> #[trigger] pending_added(v, names)[i] == v[i],
    decreases names.len(),
{
    if names.len() > 0 {
        let d = names.drop_last();
        lemma_pending_added_names(v, d);
        let r = pending_added(v, d);
        let p = pending_added(v, names);
        assert forall|k: int| 0 <= k < names.len() implies has_name(p, #[trigger] names[k]) by {
            if k < names.len() - 1 {
                assert(d[k] == names[k]);
                assert(has_name(r, d[k]));
                let i = choose|i: int| 0 <= i < r.len() && r[i].0 == d[k];
                assert(p[i] == r[i]);
            } else if has_name(r, names.last()) {
                let i = choose|i: int| 0 <= i < r.len() && r[i].0 == names.last();
                assert(p[i].0 == names[k]);
            } else {
                assert(p[r.len() as int].0 == names[k]);
            }
        }
        if forall|k: int| 0 <= k < names.len() ==> has_name(v, #[trigger] names[k]) {
            assert forall|k: int| 0 <= k < d.len() implies has_name(v, #[trigger] d[k]) by {
                assert(d[k] == names[k]);
            }
            assert(r == v);
            assert(has_name(v, names[names.len() - 1]));
        }
    }
}

/// Registering the same servers twice is the same as registering them once.
pub proof fn lemma_register_twice<C>(v: Seq<McpEntryView<C>>, names: Seq<Seq<char>>)
    ensures
        pending_added(pending_added(v, names), names) == pending_added(v, names),
{
    lemma_pending_added_names(v, names);
    lemma_pending_added_names(pending_added(v, names), names);
}

/// How many servers are connected.
pub open spec fn count_connected<C>(v: Seq<McpEntryView<C>>) -> nat
    decreases v.len(),
{
    if v.len() == 0 {
        0
    } else {
        count_connected(v.drop_last()) + if v.last().1 == McpServerStatus::Connected {
            1nat
        } else {
            0nat
        }
    }
}

/// How many tools the servers offer in all.
pub open spec fn total_tools<C>(v: Seq<McpEntryView<C>>) -> nat
    decreases v.len(),
{
    if v.len() == 0 {
        0
    } else {
        total_tools(v.drop_last()) + v.last().2.len()
    }
}

/// The connections the servers hold, in order.
pub open spec fn connections<C>(v: Seq<McpEntryView<C>>) -> Seq<C>
    decreases v.len(),
{
    if v.len() == 0 {
        Seq::empty()
    } else {
        match v.last().3 {
            Some(c) => connections(v.drop_last()).push(c),
            None => connections(v.drop_last()),
        }
    }
}

/// A status as users read it.
pub open spec fn status_text(s: McpServerStatus) -> Seq<char> {
    match s {
        McpServerStatus::Pending => "pending"@,
        McpServerStatus::Connecting => "connecting"@,
        McpServerStatus::Connected => "connected"@,
        McpServerStatus::Failed => "failed"@,
        McpServerStatus::Unauthorized => "unauthorized"@,
    }
}

/// A server's snapshot as a value.
pub open spec fn server_snapshot_view(s: McpServerSnapshot) -> (Seq<char>, Seq<char>, Seq<Seq<char>>) {
    (s.name@, s.status@, strings_view(s.tools@))
}

fn copy_names(v: &Vec<String>) -> (r: Vec<String>)
    ensures
        strings_view(r@) == strings_view(v@),
{
    crate::text::copy_strings(v)
}

/// The MCP servers of a toolset, by name, with what loading them reached.
pub struct McpServerRegistry<C> {
    servers: Vec<(String, McpServerInfo<C>)>,
}

impl<C> McpServerRegistry<C> {
    /// The servers in the order they were registered.
    pub closed spec fn entries(&self) -> Seq<McpEntryView<C>> {
        self.servers@.map_values(|e: (String, McpServerInfo<C>)| entry_view(e))
    }

    /// An empty registry.
    pub fn new() -> (r: Self)
        ensures
            r.entries().len() == 0,
    {
        let r = McpServerRegistry { servers: Vec::new() };
        assert(r.entries() =~= Seq::<McpEntryView<C>>::empty());
        r
    }

    /// Number of servers.
    pub fn len(&self) -> (r: usize)
        ensures
            r == self.entries().len(),
    {
        self.servers.len()
    }

    fn position(&self, name: &str) -> (r: Option<usize>)
        ensures
            match r {
                Some(i) => i < self.entries().len() && self.entries()[i as int].0 == name@,
                None => entry_pos(self.entries(), name@) is None,
            },
    {
        let ghost v = self.entries();
        let mut i: usize = 0;
        while i < self.servers.len()
            invariant
                i <= self.servers.len(),
                v == self.entries(),
                forall|j: int| 0 <= j < i ==> v[j].0 != name@,
            decreases self.servers.len() - i,
        {
            if eq_vec(&chars_of(self.servers[i].0.as_str()), &chars_of(name)) {
                assert(v[i as int] == entry_view(self.servers@[i as int]));
                return Some(i);
            }
            assert(v[i as int] == entry_view(self.servers@[i as int]));
            i += 1;
        }
        None
    }

    /// Whether a server of that name is registered.
    pub fn has_server(&self, name: &str) -> (r: bool)
        ensures
            r == entry_pos(self.entries(), name@) is Some,
    {
        match self.position(name) {
            Some(i) => {
                assert(exists|k: int| 0 <= k < self.entries().len() && self.entries()[k].0 == name@) by {
                    assert(self.entries()[i as int].0 == name@);
                }
                true
            },
            None => false,
        }
    }

    /// Registers the named servers: each name not yet present is added as
    /// pending; servers already present are left as they are.
    pub fn register_pending(&mut self, names: &Vec<String>)
        requires
            names_distinct(old(self).entries()),
        ensures
            final(self).entries() == pending_added(old(self).entries(), strings_view(names@)),
            names_distinct(final(self).entries()),
    {
        let ghost nv = strings_view(names@);
        let mut k: usize = 0;
        while k < names.len()
            invariant
                k <= names.len(),
                nv == strings_view(names@),
                self.entries() == pending_added(old(self).entries(), nv.subrange(0, k as int)),
                names_distinct(self.entries()),
            decreases names.len() - k,
        {
            let ghost before = self.entries();
            assert(nv.subrange(0, k + 1).drop_last() =~= nv.subrange(0, k as int));
            assert(nv[k as int] == names@[k as int]@);
            match self.position(names[k].as_str()) {
                Some(i) => {
                    assert(before[i as int].0 == nv.subrange(0, k + 1).last());
                },
                None => {
                    assert(!exists|i: int| 0 <= i < before.len() && before[i].0 == nv[k as int]);
                    let ghost sv = self.servers@;
                    self.servers.push((names[k].clone(), McpServerInfo::new()));
                    assert(self.entries() =~= before.push((nv[k as int], McpServerStatus::Pending, Seq::empty(), None))) by {
                        assert(self.servers@ == sv.push(self.servers@.last()));
                        assert(strings_view(self.servers@.last().1.tool_names@) =~= Seq::<Seq<char>>::empty());
                    }
                },
            }
            k += 1;
        }
        assert(nv.subrange(0, names.len() as int) =~= nv);
    }

    fn replace_info(&mut self, i: usize, info: McpServerInfo<C>) -> (old_info: McpServerInfo<C>)
        requires
            i < old(self).entries().len(),
        ensures
            final(self).entries() == old(self).entries().update(
                i as int,
                (old(self).entries()[i as int].0, info.status, strings_view(info.tool_names@), info.connection),
            ),
            entry_view((old(self).servers@[i as int].0, old_info)) == old(self).entries()[i as int],
    {
        let ghost before = self.servers@;
        let (name, old_info) = self.servers.remove(i);
        self.servers.insert(i, (name, info));
        assert(self.servers@ =~= before.update(i as int, (before[i as int].0, info)));
        assert(self.entries() =~= old(self).entries().update(
            i as int,
            (old(self).entries()[i as int].0, info.status, strings_view(info.tool_names@), info.connection),
        ));
        old_info
    }

    /// Starts connecting a pending server (see `begin_connect_spec`).
    pub fn begin_connect(&mut self, name: &str) -> (r: bool)
        requires
            names_distinct(old(self).entries()),
        ensures
            names_distinct(final(self).entries()),
            (r, final(self).entries()) == begin_connect_spec(old(self).entries(), name@),
    {
        let i = match self.position(name) {
            Some(i) => i,
            None => return false,
        };
        proof {
            let v = old(self).entries();
            let k = choose|k: int| 0 <= k < v.len() && v[k].0 == name@;
            assert(k == i as int) by {
                if k != i as int {
                    if k < i as int {
                        assert(v[k].0 != v[i as int].0);
                    } else {
                        assert(v[i as int].0 != v[k].0);
                    }
                }
            }
            assert(v[i as int] == entry_view(self.servers@[i as int]));
        }
        if self.servers[i].1.status != McpServerStatus::Pending {
            return false;
        }
        let placeholder = McpServerInfo::new();
        let info = self.replace_info(i, placeholder);
        let connecting = McpServerInfo { status: McpServerStatus::Connecting, ..info };
        let _ = self.replace_info(i, connecting);
        assert(final(self).entries() =~= old(self).entries().update(
            i as int,
            (
                old(self).entries()[i as int].0,
                McpServerStatus::Connecting,
                old(self).entries()[i as int].2,
                old(self).entries()[i as int].3,
            ),
        ));
        true
    }

    /// Records how connecting a registered server ended: with its connection
    /// and tool names it is connected; without, it has failed.
    pub fn finish_connect(&mut self, name: &str, connected: Option<(C, Vec<String>)>)
        requires
            names_distinct(old(self).entries()),
            entry_pos(old(self).entries(), name@) is Some,
        ensures
            names_distinct(final(self).entries()),
            ({
                let i = entry_pos(old(self).entries(), name@)->0;
                let e = old(self).entries()[i];
                final(self).entries() == old(self).entries().update(
                    i,
                    match connected {
                        Some((c, tools)) => (e.0, McpServerStatus::Connected, strings_view(tools@), Some(c)),
                        None => (e.0, McpServerStatus::Failed, e.2, e.3),
                    },
                )
            }),
    {
        let i = match self.position(name) {
            Some(i) => i,
            None => {
                proof {
                    assert(false);
                }
                return;
            },
        };
        proof {
            let v = old(self).entries();
            let k = choose|k: int| 0 <= k < v.len() && v[k].0 == name@;
            assert(k == i as int) by {
                if k != i as int {
                    if k < i as int {
                        assert(v[k].0 != v[i as int].0);
                    } else {
                        assert(v[i as int].0 != v[k].0);
                    }
                }
            }
        }
        let info = self.replace_info(i, McpServerInfo::new());
        let new_info = match connected {
            Some((c, tools)) => McpServerInfo { status: McpServerStatus::Connected, connection: Some(c), tool_names: tools },
            None => McpServerInfo { status: McpServerStatus::Failed, ..info },
        };
        let _ = self.replace_info(i, new_info);
        assert(final(self).entries() =~= old(self).entries().update(
            i as int,
            match connected {
                Some((c, tools)) => (
                    old(self).entries()[i as int].0,
                    McpServerStatus::Connected,
                    strings_view(tools@),
                    Some(c),
                ),
                None => (
                    old(self).entries()[i as int].0,
                    McpServerStatus::Failed,
                    old(self).entries()[i as int].2,
                    old(self).entries()[i as int].3,
                ),
            },
        ));
    }

    /// What users are shown of the servers: nothing when there are none;
    /// else each server's name, status and tools, how many are connected
    /// and how many tools there are in all.
    pub fn status_snapshot(&self, loading: bool) -> (r: Option<McpStatusSnapshot>)
        requires
            total_tools(self.entries()) <= usize::MAX,
        ensures
            self.entries().len() == 0 ==> r is None,
            self.entries().len() > 0 ==> (r matches Some(s) && {
                &&& s.loading == loading
                &&& s.total == self.entries().len()
                &&& s.connected == count_connected(self.entries())
                &&& s.tools == total_tools(self.entries())
                &&& s.servers@.map_values(|x: McpServerSnapshot| server_snapshot_view(x))
                    == self.entries().map_values(|e: McpEntryView<C>| (e.0, status_text(e.1), e.2))
            }),
    {
        if self.servers.len() == 0 {
            return None;
        }
        let ghost v = self.entries();
        let mut servers: Vec<McpServerSnapshot> = Vec::new();
        let mut connected: usize = 0;
        let mut tools: usize = 0;
        let mut i: usize = 0;
        while i < self.servers.len()
            invariant
                i <= self.servers.len(),
                v == self.entries(),
                total_tools(v) <= usize::MAX,
                connected == count_connected(v.subrange(0, i as int)),
                tools == total_tools(v.subrange(0, i as int)),
                servers@.map_values(|x: McpServerSnapshot| server_snapshot_view(x)) == v.subrange(0, i as int).map_values(
                    |e: McpEntryView<C>| (e.0, status_text(e.1), e.2),
                ),
            decreases self.servers.len() - i,
        {
            let ghost sub = v.subrange(0, i + 1);
            assert(sub.drop_last() =~= v.subrange(0, i as int));
            assert(v[i as int] == entry_view(self.servers@[i as int]));
            proof {
                lemma_total_tools_prefix(v, i + 1);
                lemma_count_connected_prefix(v, i + 1);
            }
            let e = &self.servers[i];
            if e.1.status == McpServerStatus::Connected {
                connected = connected + 1;
            }
            tools = tools + e.1.tool_names.len();
            let ghost before = servers@;
            let snap = McpServerSnapshot {
                name: e.0.clone(),
                status: e.1.status.to_string(),
                tools: copy_names(&e.1.tool_names),
            };
            servers.push(snap);
            assert(servers@.map_values(|x: McpServerSnapshot| server_snapshot_view(x)) =~= before.map_values(
                |x: McpServerSnapshot| server_snapshot_view(x),
            ).push(server_snapshot_view(snap)));
            assert(sub.map_values(|e: McpEntryView<C>| (e.0, status_text(e.1), e.2)) =~= v.subrange(
                0,
                i as int,
            ).map_values(|e: McpEntryView<C>| (e.0, status_text(e.1), e.2)).push(
                (v[i as int].0, status_text(v[i as int].1), v[i as int].2),
            ));
            i += 1;
        }
        assert(v.subrange(0, self.servers.len() as int) =~= v);
        Some(McpStatusSnapshot { loading, connected, total: self.servers.len(), tools, servers })
    }

    /// Empties the registry and hands back the connections it held, in
    /// order, to be closed.
    pub fn take_connections(&mut self) -> (r: Vec<C>)
        ensures
            final(self).entries().len() == 0,
            r@ == connections(old(self).entries()),
    {
        let mut rest: Vec<(String, McpServerInfo<C>)> = Vec::new();
        std::mem::swap(&mut rest, &mut self.servers);
        let ghost all = rest@.map_values(|e: (String, McpServerInfo<C>)| entry_view(e));
        assert(all == old(self).entries());
        let mut out: Vec<C> = Vec::new();
        let ghost mut done: int = 0;
        assert(all.subrange(0, all.len() as int) =~= all);
        assert(all.subrange(0, 0) =~= Seq::<McpEntryView<C>>::empty());
        while rest.len() > 0
            invariant
                0 <= done <= all.len(),
                rest@.map_values(|e: (String, McpServerInfo<C>)| entry_view(e)) == all.subrange(done, all.len() as int),
                out@ == connections(all.subrange(0, done)),
            decreases rest.len(),
        {
            let ghost rv = rest@;
            let (_, info) = rest.remove(0);
            proof {
                let rm = rv.map_values(|e: (String, McpServerInfo<C>)| entry_view(e));
                assert(rm.len() == rv.len());
                assert(done < all.len());
                assert(rm[0] == entry_view(rv[0]));
                assert(rm[0] == all[done]);
                assert(entry_view(rv[0]) == all[done]);
                assert(all.subrange(0, done + 1).drop_last() =~= all.subrange(0, done));
                assert(rest@ =~= rv.subrange(1, rv.len() as int));
                assert forall|k: int| 0 <= k < rest@.len() implies entry_view(rest@[k]) == all[done + 1 + k] by {
                    assert(rest@[k] == rv[k + 1]);
                    assert(rm[k + 1] == entry_view(rv[k + 1]));
                    assert(rm[k + 1] == all.subrange(done, all.len() as int)[k + 1]);
                }
                assert(rest@.map_values(|e: (String, McpServerInfo<C>)| entry_view(e)) =~= all.subrange(
                    done + 1,
                    all.len() as int,
                ));
            }
            match info.connection {
                Some(c) => out.push(c),
                None => {},
            }
            proof {
                done = done + 1;
            }
        }
        proof {
            assert(all.subrange(done, all.len() as int).len() == 0);
            assert(all.subrange(0, done) =~= all);
        }
        assert(self.entries() =~= Seq::<McpEntryView<C>>::empty());
        out
    }
}

proof fn lemma_total_tools_prefix<C>(v: Seq<McpEntryView<C>>, n: int)
    requires
        0 <= n <= v.len(),
    ensures
        total_tools(v.subrange(0, n)) <= total_tools(v),
    decreases v.len() - n,
{
    if n < v.len() {
        lemma_total_tools_prefix(v, n + 1);
        assert(v.subrange(0, n + 1).drop_last() =~= v.subrange(0, n));
    } else {
        assert(v.subrange(0, n) =~= v);
    }
}

proof fn lemma_count_connected_prefix<C>(v: Seq<McpEntryView<C>>, n: int)
    requires
        0 <= n <= v.len(),
    ensures
        count_connected(v.subrange(0, n)) <= n,
    decreases n,
{
    if n > 0 {
        lemma_count_connected_prefix(v, n - 1);
        assert(v.subrange(0, n).drop_last() =~= v.subrange(0, n - 1));
    }
}

/// What `format!("{:?}", ..)` writes for a list of strings.
pub uninterp spec fn debug_strings_result(v: Seq<Seq<char>>) -> Seq<char>;

/// Formats a list of strings with `Debug`, as `format!("{:?}", ..)` does.
/// The text is named: how `Debug` escapes characters is not stated.
#[verifier::external_body]
fn debug_strings(v: &Vec<String>) -> (r: String)
    ensures
        r@ == debug_strings_result(strings_view(v@)),
{
    format!("{:?}", v)
}

/// The error loading MCP tools ends with when servers failed to connect.
pub fn mcp_load_error(failed: &Vec<String>) -> (r: Option<KimiCliError>)
    ensures
        failed@.len() == 0 ==> r is None,
        failed@.len() > 0 ==> (r matches Some(KimiCliError::McpRuntime(m)) && m@ == "Failed to connect MCP servers: "@
            + debug_strings_result(strings_view(failed@))),
{
    if failed.len() == 0 {
        return None;
    }
    let mut m = chars_of("Failed to connect MCP servers: ");
    append_vec(&mut m, &chars_of(debug_strings(failed).as_str()));
    Some(KimiCliError::McpRuntime(string_of(&m)))
}

} // verus!
