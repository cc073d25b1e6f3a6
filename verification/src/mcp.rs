//! MCP servers: their status, the snapshots shown to users, and the
//! configuration edits made from the command line.
use crate::config::{McpConfig, McpServerConfig};
use crate::soul::compaction::{utf8_len, utf8_width};
use crate::soul::message::{parts_view, ContentPart, PartKind, ToolReturnValue};
use crate::text::{
    append_vec, chars_of, dec, dec_exec, eq_vec, find_sub_exec, find_sub_from, join, join_exec, join_path,
    lemma_find_sub_from, path_join, string_of, sub_vec, trim, trim_vec, vecs_view,
};
use vstd::prelude::*;

verus! {

/// Lifecycle status of an MCP server.
#[derive(Debug, Clone, Copy, PartialEq, Eq, Structural)]
pub enum McpServerStatus {
    Pending,
    Connecting,
    Connected,
    Failed,
    Unauthorized,
}

impl McpServerStatus {
    /// The status as users read it.
    pub fn to_string(&self) -> (r: String)
        ensures
            r@ == (match *self {
                McpServerStatus::Pending => "pending"@,
                McpServerStatus::Connecting => "connecting"@,
                McpServerStatus::Connected => "connected"@,
                McpServerStatus::Failed => "failed"@,
                McpServerStatus::Unauthorized => "unauthorized"@,
            }),
    {
        match self {
            McpServerStatus::Pending => "pending".to_string(),
            McpServerStatus::Connecting => "connecting".to_string(),
            McpServerStatus::Connected => "connected".to_string(),
            McpServerStatus::Failed => "failed".to_string(),
            McpServerStatus::Unauthorized => "unauthorized".to_string(),
        }
    }
}

/// Information about a connected (or attempted) MCP server; `C` is the
/// connection.
#[derive(Debug)]
pub struct McpServerInfo<C> {
    pub status: McpServerStatus,
    pub connection: Option<C>,
    pub tool_names: Vec<String>,
}

impl<C> McpServerInfo<C> {
    /// A server not yet connected.
    pub fn new() -> (r: Self)
        ensures
            r.status == McpServerStatus::Pending,
            r.connection is None,
            r.tool_names@.len() == 0,
    {
        McpServerInfo { status: McpServerStatus::Pending, connection: None, tool_names: Vec::new() }
    }
}

impl<C> Default for McpServerInfo<C> {
    fn default() -> (r: Self)
        ensures
            r.status == McpServerStatus::Pending,
            r.connection is None,
            r.tool_names@.len() == 0,
    {
        Self::new()
    }
}

/// Read-only snapshot of an MCP server for UI display.
#[derive(Debug, Clone)]
pub struct McpServerSnapshot {
    pub name: String,
    pub status: String,
    pub tools: Vec<String>,
}

/// Overall MCP status snapshot.
#[derive(Debug, Clone)]
pub struct McpStatusSnapshot {
    pub loading: bool,
    pub connected: usize,
    pub total: usize,
    pub tools: usize,
    pub servers: Vec<McpServerSnapshot>,
}

/// MCP server management commands.
#[derive(Debug, Clone)]
pub enum McpCommand {
    Add {
        name: String,
        server_args: Vec<String>,
        transport: String,
        env: Vec<String>,
        header: Vec<String>,
        auth: Option<String>,
    },
    Remove { name: String },
    List,
    Auth { name: String },
    ResetAuth { name: String },
    Test { name: String },
}

/// The global MCP configuration file under the share directory.
pub fn get_global_mcp_config_file(share_dir: &str) -> (r: String)
    ensures
        r@ == path_join(share_dir@, "mcp.json"@),
{
    join_path(share_dir, "mcp.json")
}

/// One `KEY<sep>VALUE` item: split at the first separator (both sides
/// trimmed when `strip`); an item without a separator gives nothing.
pub open spec fn key_value_spec(item: Seq<char>, sep: Seq<char>, strip: bool) -> Option<(Seq<char>, Seq<char>)> {
    match find_sub_from(item, sep, 0) {
        None => None,
        Some(i) => {
            let k = item.subrange(0, i);
            let v = item.subrange(i + sep.len(), item.len() as int);
            if strip {
                Some((trim(k), trim(v)))
            } else {
                Some((k, v))
            }
        },
    }
}

/// The pairs read so far from `items[..n]`, a later key replacing an
/// earlier one in its place.
pub open spec fn key_values_spec(items: Seq<Seq<char>>, sep: Seq<char>, strip: bool, n: int) -> Seq<(Seq<char>, Seq<char>)>
    decreases n,
{
    if n <= 0 {
        Seq::empty()
    } else {
        let r = key_values_spec(items, sep, strip, n - 1);
        match key_value_spec(items[n - 1], sep, strip) {
            None => r,
            Some((k, v)) => if exists|j: int| 0 <= j < r.len() && r[j].0 == k {
                r.update(choose|j: int| 0 <= j < r.len() && r[j].0 == k, (k, v))
            } else {
                r.push((k, v))
            },
        }
    }
}

pub open spec fn pairs_view(v: Seq<(String, String)>) -> Seq<(Seq<char>, Seq<char>)> {
    v.map_values(|p: (String, String)| (p.0@, p.1@))
}

pub open spec fn keys_distinct(v: Seq<(Seq<char>, Seq<char>)>) -> bool {
    forall|a: int, b: int| 0 <= a < b < v.len() ==> v[a].0 != v[b].0
}

proof fn lemma_key_values_distinct(items: Seq<Seq<char>>, sep: Seq<char>, strip: bool, n: int)
    ensures
        keys_distinct(key_values_spec(items, sep, strip, n)),
    decreases n,
{
    if n > 0 {
        lemma_key_values_distinct(items, sep, strip, n - 1);
        let r = key_values_spec(items, sep, strip, n - 1);
        match key_value_spec(items[n - 1], sep, strip) {
            None => {},
            Some((k, v)) => {
                if exists|j: int| 0 <= j < r.len() && r[j].0 == k {
                    let j = choose|j: int| 0 <= j < r.len() && r[j].0 == k;
                    let r2 = r.update(j, (k, v));
                    assert forall|a: int, b: int| 0 <= a < b < r2.len() implies r2[a].0 != r2[b].0 by {
                        assert(r2[a].0 == r[a].0);
                        assert(r2[b].0 == r[b].0);
                    }
                }
            },
        }
    }
}

/// Parses `KEY<sep>VALUE` items into pairs (see `key_values_spec`).
pub fn parse_key_value(items: &Vec<String>, sep: &str, strip: bool) -> (r: Vec<(String, String)>)
    requires
        sep@.len() > 0,
    ensures
        pairs_view(r@) == key_values_spec(items@.map_values(|s: String| s@), sep@, strip, items@.len() as int),
        keys_distinct(pairs_view(r@)),
{
    let ghost iv = items@.map_values(|s: String| s@);
    let sv = chars_of(sep);
    let mut r: Vec<(String, String)> = Vec::new();
    let mut i: usize = 0;
    assert(pairs_view(r@) =~= Seq::<(Seq<char>, Seq<char>)>::empty());
    while i < items.len()
        invariant
            i <= items.len(),
            sv@ == sep@,
            iv == items@.map_values(|s: String| s@),
            pairs_view(r@) == key_values_spec(iv, sep@, strip, i as int),
        decreases items.len() - i,
    {
        proof {
            lemma_key_values_distinct(iv, sep@, strip, i as int);
        }
        let item = chars_of(items[i].as_str());
        assert(iv[i as int] == item@);
        proof {
            lemma_find_sub_from(item@, sep@, 0);
        }
        match find_sub_exec(&item, &sv) {
            None => {},
            Some(p) => {
                let sl = sv.len();
                assert(p + sl <= item.len());
                let mut k = sub_vec(&item, 0, p);
                let mut v = sub_vec(&item, p + sl, item.len());
                if strip {
                    k = trim_vec(&k);
                    v = trim_vec(&v);
                }
                let ks = string_of(&k);
                let ghost rv = pairs_view(r@);
                let mut j: usize = 0;
                while j < r.len() && r[j].0 != ks
                    invariant
                        j <= r.len(),
                        rv == pairs_view(r@),
                        ks@ == k@,
                        forall|q: int| 0 <= q < j ==> rv[q].0 != k@,
                    decreases r.len() - j,
                {
                    j += 1;
                }
                if j < r.len() {
                    proof {
                        assert(rv[j as int].0 == k@);
                        let c = choose|c: int| 0 <= c < rv.len() && rv[c].0 == k@;
                        assert(c == j as int) by {
                            if c != j as int {
                                assert(keys_distinct(rv));
                            }
                        }
                    }
                    r.set(j, (ks, string_of(&v)));
                    assert(pairs_view(r@) =~= rv.update(j as int, (k@, v@)));
                } else {
                    r.push((ks, string_of(&v)));
                    assert(pairs_view(r@) =~= rv.push((k@, v@)));
                }
            },
        }
        i += 1;
    }
    proof {
        lemma_key_values_distinct(iv, sep@, strip, items@.len() as int);
    }
    r
}

pub open spec fn strs(v: Seq<String>) -> Seq<Seq<char>> {
    v.map_values(|s: String| s@)
}

/// What `mcp add` makes of its arguments: a stdio server runs the first
/// argument with the rest as its arguments and `KEY=VALUE` environment
/// items; an http server takes exactly one URL and `KEY:VALUE` headers
/// (trimmed). Missing or extra targets and unknown transports are refused.
pub fn build_server_config(
    server_args: &Vec<String>,
    transport: &str,
    env: &Vec<String>,
    header: &Vec<String>,
    auth: Option<String>,
) -> (r: Result<McpServerConfig, String>)
    ensures
        transport@ == "stdio"@ ==> (if server_args@.len() == 0 {
            r matches Err(m) && m@ == "For stdio transport, provide the command to start the MCP server."@
        } else {
            r matches Ok(McpServerConfig::Stdio { command, args, env: e }) && command@ == server_args@[0]@
                && strs(args@) == strs(server_args@).subrange(1, server_args@.len() as int)
                && pairs_view(e@) == key_values_spec(strs(env@), "="@, false, env@.len() as int)
        }),
        transport@ == "http"@ ==> (if server_args@.len() == 0 {
            r matches Err(m) && m@ == "URL is required for http transport."@
        } else if server_args@.len() > 1 {
            r matches Err(m) && m@ == "Multiple targets provided. Supply a single URL for http transport."@
        } else {
            r matches Ok(McpServerConfig::Http { url, transport: t, headers, auth: a }) && url@ == server_args@[0]@
                && t@ == "http"@ && a == auth && pairs_view(headers@) == key_values_spec(
                strs(header@),
                ":"@,
                true,
                header@.len() as int,
            )
        }),
        transport@ != "stdio"@ && transport@ != "http"@ ==> (r matches Err(m) && m@ == "Unsupported transport: "@
            + transport@ + "."@),
{
    proof {
        reveal_strlit("stdio");
        reveal_strlit("http");
        assert("stdio"@[0] != "http"@[0]);
    }
    let t = chars_of(transport);
    if eq_vec(&t, &chars_of("stdio")) {
        if server_args.len() == 0 {
            return Err("For stdio transport, provide the command to start the MCP server.".to_string());
        }
        let command = server_args[0].clone();
        let mut args: Vec<String> = Vec::new();
        let mut i: usize = 1;
        while i < server_args.len()
            invariant
                1 <= i <= server_args.len(),
                strs(args@) == strs(server_args@).subrange(1, i as int),
            decreases server_args.len() - i,
        {
            let ghost before = strs(args@);
            args.push(server_args[i].clone());
            assert(strs(args@) =~= before.push(server_args@[i as int]@));
            assert(strs(server_args@).subrange(1, i + 1) =~= strs(server_args@).subrange(1, i as int).push(
                server_args@[i as int]@,
            ));
            i += 1;
        }
        proof {
            reveal_strlit("=");
        }
        let e = parse_key_value(env, "=", false);
        Ok(McpServerConfig::Stdio { command, args, env: e })
    } else if eq_vec(&t, &chars_of("http")) {
        if server_args.len() == 0 {
            return Err("URL is required for http transport.".to_string());
        }
        if server_args.len() > 1 {
            return Err("Multiple targets provided. Supply a single URL for http transport.".to_string());
        }
        proof {
            reveal_strlit(":");
        }
        let headers = parse_key_value(header, ":", true);
        Ok(McpServerConfig::Http { url: server_args[0].clone(), transport: "http".to_string(), headers, auth })
    } else {
        let mut m = chars_of("Unsupported transport: ");
        append_vec(&mut m, &t);
        append_vec(&mut m, &chars_of("."));
        Err(string_of(&m))
    }
}

/// Adds a server under `name`, replacing a server of that name.
pub fn add_server(config: &mut McpConfig, name: String, server: McpServerConfig)
    ensures
        ({
            let old_s = old(config).servers@;
            let new_s = final(config).servers@;
            if exists|i: int| 0 <= i < old_s.len() && old_s[i].0@ == name@ {
                exists|i: int| 0 <= i < old_s.len() && old_s[i].0@ == name@ && new_s == old_s.update(i, (name, server))
            } else {
                new_s == old_s.push((name, server))
            }
        }),
        final(config).client == old(config).client,
{
    let mut i: usize = 0;
    while i < config.servers.len()
        invariant
            i <= config.servers.len(),
            config.servers@ == old(config).servers@,
            config.client == old(config).client,
            forall|j: int| 0 <= j < i ==> config.servers@[j].0@ != name@,
        decreases config.servers.len() - i,
    {
        if config.servers[i].0 == name {
            config.servers.set(i, (name, server));
            return;
        }
        i += 1;
    }
    config.servers.push((name, server));
}

/// Removes every server named `name`; whether there was one.
pub fn remove_server(config: &mut McpConfig, name: &String) -> (r: bool)
    ensures
        r == exists|i: int| 0 <= i < old(config).servers@.len() && old(config).servers@[i].0@ == name@,
        final(config).servers@ == old(config).servers@.filter(|p: (String, McpServerConfig)| p.0@ != name@),
        final(config).client == old(config).client,
{
    let ghost old_s = config.servers@;
    let mut kept: Vec<(String, McpServerConfig)> = Vec::new();
    let mut removed = false;
    let mut all: Vec<(String, McpServerConfig)> = Vec::new();
    std::mem::swap(&mut all, &mut config.servers);
    let mut i: usize = 0;
    let n = all.len();
    while all.len() > 0
        invariant
            all@.len() + i == n,
            n == old_s.len(),
            all@ == old_s.subrange(i as int, n as int),
            kept@ == old_s.subrange(0, i as int).filter(|p: (String, McpServerConfig)| p.0@ != name@),
            removed == exists|j: int| 0 <= j < i && old_s[j].0@ == name@,
        decreases all.len(),
    {
        let p = all.remove(0);
        proof {
            assert(old_s.subrange(0, i + 1) =~= old_s.subrange(0, i as int).push(p));
            old_s.subrange(0, i as int).lemma_filter_push(p, |p: (String, McpServerConfig)| p.0@ != name@);
        }
        if p.0 == *name {
            removed = true;
        } else {
            kept.push(p);
        }
        i += 1;
    }
    assert(old_s.subrange(0, n as int) =~= old_s);
    config.servers = kept;
    removed
}

/// The line `mcp list` prints for a server.
pub open spec fn server_line_spec(name: Seq<char>, server: McpServerConfig) -> Seq<char> {
    match server {
        McpServerConfig::Stdio { command, args, .. } => "  "@ + name + " (stdio): "@ + command@ + " "@ + join(
            strs(args@),
            " "@,
        ),
        McpServerConfig::Http { url, auth, .. } => "  "@ + name + " (http): "@ + url@ + (match auth {
            Some(a) => if a@ == "oauth"@ {
                " [authorization required]"@
            } else {
                Seq::empty()
            },
            None => Seq::empty(),
        }),
    }
}

pub fn server_line(name: &str, server: &McpServerConfig) -> (r: String)
    ensures
        r@ == server_line_spec(name@, *server),
{
    let mut v = chars_of("  ");
    append_vec(&mut v, &chars_of(name));
    match server {
        McpServerConfig::Stdio { command, args, .. } => {
            append_vec(&mut v, &chars_of(" (stdio): "));
            append_vec(&mut v, &chars_of(command.as_str()));
            append_vec(&mut v, &chars_of(" "));
            let mut parts: Vec<Vec<char>> = Vec::new();
            let mut i: usize = 0;
            while i < args.len()
                invariant
                    i <= args.len(),
                    vecs_view(parts@) == strs(args@).subrange(0, i as int),
                decreases args.len() - i,
            {
                let ghost before = vecs_view(parts@);
                parts.push(chars_of(args[i].as_str()));
                assert(vecs_view(parts@) =~= before.push(args@[i as int]@));
                assert(strs(args@).subrange(0, i + 1) =~= strs(args@).subrange(0, i as int).push(args@[i as int]@));
                i += 1;
            }
            assert(strs(args@).subrange(0, args@.len() as int) =~= strs(args@));
            append_vec(&mut v, &join_exec(&parts, &chars_of(" ")));
        },
        McpServerConfig::Http { url, auth, .. } => {
            append_vec(&mut v, &chars_of(" (http): "));
            append_vec(&mut v, &chars_of(url.as_str()));
            match auth {
                Some(a) => {
                    if eq_vec(&chars_of(a.as_str()), &chars_of("oauth")) {
                        append_vec(&mut v, &chars_of(" [authorization required]"));
                    }
                },
                None => {},
            }
        },
    }
    string_of(&v)
}

/// A content item of an MCP tool result, as plain values.
#[derive(Debug, Clone)]
pub enum McpContent {
    Text { text: String },
    Image { mime_type: String, data: String },
    Audio { mime_type: String, data: String },
    TextResource { text: String },
    /// An embedded binary resource; `blob` is its base64 text.
    BlobResource { blob: String },
    ResourceLink { uri: String },
}

/// Most text an MCP result may hand back, in UTF-8 bytes.
pub const MCP_MAX_OUTPUT_CHARS: usize = 100_000;

pub open spec fn data_url(mime: Seq<char>, data: Seq<char>) -> Seq<char> {
    "data:"@ + mime + ";base64,"@ + data
}

/// The content part an MCP item becomes.
pub open spec fn converted_part(c: McpContent) -> (PartKind, Seq<char>) {
    match c {
        McpContent::Text { text } => (PartKind::Text, text@),
        McpContent::Image { mime_type, data } => (PartKind::ImageUrl, data_url(mime_type@, data@)),
        McpContent::Audio { mime_type, data } => (PartKind::AudioUrl, data_url(mime_type@, data@)),
        McpContent::TextResource { text } => (PartKind::Text, text@),
        McpContent::BlobResource { blob } => (
            PartKind::Text,
            "[Binary resource: "@ + dec(utf8_len(blob@)) + " bytes]"@,
        ),
        McpContent::ResourceLink { uri } => (PartKind::Text, "[Resource link: "@ + uri@ + "]"@),
    }
}

/// The first characters of `t` that take exactly `b` UTF-8 bytes, if `b`
/// falls on a character boundary.
pub open spec fn byte_prefix(t: Seq<char>, b: nat) -> Option<Seq<char>>
    decreases t.len(),
{
    if b == 0 {
        Some(Seq::empty())
    } else if t.len() == 0 || utf8_width(t[0]) > b {
        None
    } else {
        match byte_prefix(t.subrange(1, t.len() as int), (b - utf8_width(t[0])) as nat) {
            Some(p) => Some(seq![t[0]] + p),
            None => None,
        }
    }
}

/// Converting under the output budget: parts kept so far, budget left,
/// whether something was cut. `None`: a cut falls inside a character, where
/// slicing the text would panic.
pub open spec fn budget_fold(items: Seq<McpContent>, k: int, parts: Seq<(PartKind, Seq<char>)>, budget: nat, truncated: bool) -> Option<(Seq<(PartKind, Seq<char>)>, bool)>
    decreases items.len() - k,
{
    if k < 0 || k >= items.len() {
        Some((parts, truncated))
    } else {
        let part = converted_part(items[k]);
        if part.0 is Text {
            if budget == 0 {
                budget_fold(items, k + 1, parts, budget, true)
            } else if utf8_len(part.1) > budget {
                match byte_prefix(part.1, budget) {
                    None => None,
                    Some(cut) => budget_fold(items, k + 1, parts.push((PartKind::Text, cut)), 0, true),
                }
            } else {
                budget_fold(items, k + 1, parts.push(part), (budget - utf8_len(part.1)) as nat, truncated)
            }
        } else {
            let size = utf8_len(part.1);
            if size > budget {
                budget_fold(items, k + 1, parts, budget, true)
            } else {
                budget_fold(items, k + 1, parts.push(part), (budget - size) as nat, truncated)
            }
        }
    }
}

pub open spec fn truncation_notice() -> Seq<char> {
    "\n\n[Output truncated: exceeded "@ + dec(100_000) + " character limit. Use pagination or more specific queries to get remaining content.]"@
}

/// What an MCP tool result becomes: an error result says so; otherwise its
/// items as parts, within the output budget, with a notice when something
/// was cut. `None` as in `budget_fold`.
pub open spec fn convert_spec(items: Seq<McpContent>, is_error: bool) -> Option<ToolReturnValueView> {
    match budget_fold(items, 0, Seq::empty(), 100_000, false) {
        None => None,
        Some((parts, truncated)) => if is_error {
            Some(ToolReturnValueView::Error(
                "Tool returned an error. The output may be an error message or incomplete output."@,
            ))
        } else {
            Some(ToolReturnValueView::Parts(if truncated {
                parts.push((PartKind::Text, truncation_notice()))
            } else {
                parts
            }))
        },
    }
}

/// A tool return value as a value.
pub enum ToolReturnValueView {
    Success(Seq<char>, Option<Seq<char>>),
    Error(Seq<char>),
    Parts(Seq<(PartKind, Seq<char>)>),
}

pub open spec fn return_view(v: ToolReturnValue) -> ToolReturnValueView {
    match v {
        ToolReturnValue::Success { output, message } => ToolReturnValueView::Success(output@, match message {
            Some(m) => Some(m@),
            None => None,
        }),
        ToolReturnValue::Error { error } => ToolReturnValueView::Error(error@),
        ToolReturnValue::Parts { parts } => ToolReturnValueView::Parts(parts_view(parts@)),
    }
}

fn utf8_len_of(v: &Vec<char>) -> (r: usize)
    requires
        utf8_len(v@) <= usize::MAX,
    ensures
        r == utf8_len(v@),
{
    let mut n: usize = 0;
    let mut i: usize = 0;
    while i < v.len()
        invariant
            i <= v.len(),
            utf8_len(v@) <= usize::MAX,
            n == utf8_len(v@.subrange(0, i as int)),
        decreases v.len() - i,
    {
        assert(v@.subrange(0, i + 1).drop_last() =~= v@.subrange(0, i as int));
        proof {
            lemma_utf8_len_prefix(v@, i + 1);
        }
        let u = v[i] as u32;
        let w: usize = if u < 0x80 {
            1
        } else if u < 0x800 {
            2
        } else if u < 0x10000 {
            3
        } else {
            4
        };
        n = n + w;
        i += 1;
    }
    assert(v@.subrange(0, v.len() as int) =~= v@);
    n
}

proof fn lemma_utf8_len_prefix(s: Seq<char>, k: int)
    requires
        0 <= k <= s.len(),
    ensures
        utf8_len(s.subrange(0, k)) <= utf8_len(s),
    decreases s.len() - k,
{
    if k < s.len() {
        lemma_utf8_len_prefix(s, k + 1);
        assert(s.subrange(0, k + 1).drop_last() =~= s.subrange(0, k));
    } else {
        assert(s.subrange(0, k) =~= s);
    }
}

proof fn lemma_utf8_len_front(t: Seq<char>)
    requires
        t.len() > 0,
    ensures
        utf8_len(t) == utf8_width(t[0]) + utf8_len(t.subrange(1, t.len() as int)),
    decreases t.len(),
{
    if t.len() > 1 {
        lemma_utf8_len_front(t.drop_last());
        assert(t.drop_last().subrange(1, t.len() - 1) =~= t.subrange(1, t.len() as int).drop_last());
    } else {
        assert(t.subrange(1, t.len() as int) =~= Seq::<char>::empty());
        assert(t.drop_last() =~= Seq::<char>::empty());
    }
}

/// The characters of `t` taking exactly `b` bytes (see `byte_prefix`).
fn byte_prefix_exec(t: &Vec<char>, b: usize) -> (r: Option<Vec<char>>)
    ensures
        match byte_prefix(t@, b as nat) {
            Some(p) => r matches Some(v) && v@ == p,
            None => r is None,
        },
{
    let mut i: usize = 0;
    let mut left: usize = b;
    assert(t@.subrange(0, t@.len() as int) =~= t@);
    assert forall|p: Seq<char>| t@.subrange(0, 0) + p =~= p by {}
    while i < t.len() && left > 0
        invariant
            i <= t.len(),
            left <= b,
            byte_prefix(t@, b as nat) == (match byte_prefix(t@.subrange(i as int, t@.len() as int), left as nat) {
                Some(p) => Some(t@.subrange(0, i as int) + p),
                None => None,
            }),
        decreases t.len() - i,
    {
        let u = t[i] as u32;
        let w: usize = if u < 0x80 {
            1
        } else if u < 0x800 {
            2
        } else if u < 0x10000 {
            3
        } else {
            4
        };
        assert(w == utf8_width(t@[i as int]));
        let ghost rest = t@.subrange(i as int, t@.len() as int);
        assert(rest[0] == t@[i as int]);
        if w > left {
            return None;
        }
        assert(rest.subrange(1, rest.len() as int) =~= t@.subrange(i + 1, t@.len() as int));
        assert(t@.subrange(0, i + 1) =~= t@.subrange(0, i as int) + seq![t@[i as int]]);
        proof {
            match byte_prefix(t@.subrange(i + 1, t@.len() as int), (left - w) as nat) {
                Some(p) => {
                    assert(t@.subrange(0, i as int) + (seq![t@[i as int]] + p) =~= t@.subrange(0, i + 1) + p);
                },
                None => {},
            }
        }
        left = left - w;
        i += 1;
    }
    if left > 0 {
        return None;
    }
    Some(crate::text::sub_vec(t, 0, i))
}

fn converted_part_exec(c: &McpContent) -> (r: Vec<char>)
    requires
        c matches McpContent::BlobResource { blob } ==> utf8_len(blob@) <= usize::MAX,
    ensures
        r@ == converted_part(*c).1,
{
    match c {
        McpContent::Text { text } => chars_of(text.as_str()),
        McpContent::Image { mime_type, data } | McpContent::Audio { mime_type, data } => {
            let mut v = chars_of("data:");
            append_vec(&mut v, &chars_of(mime_type.as_str()));
            append_vec(&mut v, &chars_of(";base64,"));
            append_vec(&mut v, &chars_of(data.as_str()));
            v
        },
        McpContent::TextResource { text } => chars_of(text.as_str()),
        McpContent::BlobResource { blob } => {
            let n = utf8_len_of(&chars_of(blob.as_str()));
            let mut v = chars_of("[Binary resource: ");
            append_vec(&mut v, &dec_exec(n));
            append_vec(&mut v, &chars_of(" bytes]"));
            v
        },
        McpContent::ResourceLink { uri } => {
            let mut v = chars_of("[Resource link: ");
            append_vec(&mut v, &chars_of(uri.as_str()));
            append_vec(&mut v, &chars_of("]"));
            v
        },
    }
}

fn is_text_item(c: &McpContent) -> (r: bool)
    ensures
        r == (converted_part(*c).0 is Text),
{
    match c {
        McpContent::Image { .. } | McpContent::Audio { .. } => false,
        _ => true,
    }
}

fn part_of(c: &McpContent, v: Vec<char>) -> (r: ContentPart)
    ensures
        crate::soul::message::part_view(r) == (converted_part(*c).0, v@),
{
    match c {
        McpContent::Image { .. } => ContentPart::ImageUrl { url: string_of(&v) },
        McpContent::Audio { .. } => ContentPart::AudioUrl { url: string_of(&v) },
        _ => ContentPart::Text { text: string_of(&v) },
    }
}

/// Converts an MCP tool result (see `convert_spec`); `None` where a cut
/// falls inside a character, where slicing the text would panic.
pub fn convert_mcp_result(items: &Vec<McpContent>, is_error: bool) -> (r: Option<ToolReturnValue>)
    requires
        forall|i: int| 0 <= i < items@.len() ==> utf8_len(converted_part(#[trigger] items@[i]).1) <= usize::MAX,
        forall|i: int| 0 <= i < items@.len() ==> (#[trigger] items@[i] matches McpContent::BlobResource { blob }
            ==> utf8_len(blob@) <= usize::MAX),
    ensures
        match convert_spec(items@, is_error) {
            None => r is None,
            Some(v) => r matches Some(x) && return_view(x) == v,
        },
{
    let mut content: Vec<ContentPart> = Vec::new();
    assert(parts_view(content@) =~= Seq::<(PartKind, Seq<char>)>::empty());
    let mut budget: usize = 100_000;
    let mut truncated = false;
    let mut k: usize = 0;
    while k < items.len()
        invariant
            k <= items.len(),
            forall|i: int| 0 <= i < items@.len() ==> utf8_len(converted_part(#[trigger] items@[i]).1) <= usize::MAX,
            forall|i: int| 0 <= i < items@.len() ==> (#[trigger] items@[i] matches McpContent::BlobResource { blob }
                ==> utf8_len(blob@) <= usize::MAX),
            budget_fold(items@, 0, Seq::empty(), 100_000, false) == budget_fold(
                items@,
                k as int,
                parts_view(content@),
                budget as nat,
                truncated,
            ),
        decreases items.len() - k,
    {
        let item = &items[k];
        let v = converted_part_exec(item);
        let ghost pv = parts_view(content@);
        if is_text_item(item) {
            if budget == 0 {
                truncated = true;
            } else {
                let size = utf8_len_of(&v);
                if size > budget {
                    match byte_prefix_exec(&v, budget) {
                        None => {
                            return None;
                        },
                        Some(cut) => {
                            proof {
                                lemma_byte_prefix_len(v@, budget as nat);
                            }
                            content.push(ContentPart::Text { text: string_of(&cut) });
                            assert(parts_view(content@) =~= pv.push((PartKind::Text, cut@)));
                            budget = 0;
                            truncated = true;
                        },
                    }
                } else {
                    content.push(part_of(item, v));
                    assert(parts_view(content@) =~= pv.push(converted_part(*item)));
                    budget = budget - size;
                }
            }
        } else {
            let size = utf8_len_of(&v);
            if size > budget {
                truncated = true;
            } else {
                content.push(part_of(item, v));
                assert(parts_view(content@) =~= pv.push(converted_part(*item)));
                budget = budget - size;
            }
        }
        k += 1;
    }
    if truncated {
        let ghost pv = parts_view(content@);
        let mut notice = chars_of("\n\n[Output truncated: exceeded ");
        append_vec(&mut notice, &dec_exec(100_000));
        append_vec(&mut notice, &chars_of(" character limit. Use pagination or more specific queries to get remaining content.]"));
        assert(notice@ =~= truncation_notice());
        content.push(ContentPart::Text { text: string_of(&notice) });
        assert(parts_view(content@) =~= pv.push((PartKind::Text, truncation_notice())));
    }
    if is_error {
        Some(ToolReturnValue::Error {
            error: "Tool returned an error. The output may be an error message or incomplete output.".to_string(),
        })
    } else {
        Some(ToolReturnValue::Parts { parts: content })
    }
}

proof fn lemma_byte_prefix_len(t: Seq<char>, b: nat)
    ensures
        byte_prefix(t, b) matches Some(p) ==> utf8_len(p) == b,
    decreases t.len(),
{
    if b > 0 && t.len() > 0 && utf8_width(t[0]) <= b {
        lemma_byte_prefix_len(t.subrange(1, t.len() as int), (b - utf8_width(t[0])) as nat);
        match byte_prefix(t.subrange(1, t.len() as int), (b - utf8_width(t[0])) as nat) {
            Some(p) => {
                lemma_utf8_len_front(seq![t[0]] + p);
                assert((seq![t[0]] + p).subrange(1, p.len() as int + 1) =~= p);
            },
            None => {},
        }
    }
}


/// The description an MCP tool is offered with: where it comes from, then
/// the server's description of it.
pub open spec fn mcp_tool_description_spec(server_name: Seq<char>, description: Option<Seq<char>>) -> Seq<char> {
    "This is an MCP (Model Context Protocol) tool from MCP server `"@ + server_name + "`.\n\n"@ + match description {
        Some(d) => d,
        None => "No description provided."@,
    }
}

/// Describes a tool of an MCP server.
pub fn mcp_tool_description(server_name: &str, description: Option<&str>) -> (r: String)
    ensures
        r@ == mcp_tool_description_spec(
            server_name@,
            match description {
                Some(d) => Some(d@),
                None => None,
            },
        ),
{
    let mut m = chars_of("This is an MCP (Model Context Protocol) tool from MCP server `");
    append_vec(&mut m, &chars_of(server_name));
    append_vec(&mut m, &chars_of("`.\n\n"));
    match description {
        Some(d) => append_vec(&mut m, &chars_of(d)),
        None => append_vec(&mut m, &chars_of("No description provided.")),
    }
    string_of(&m)
}

/// The error an MCP tool call that ran out of time gives.
pub open spec fn mcp_timeout_text(tool_name: Seq<char>) -> Seq<char> {
    "Timeout while calling MCP tool `"@ + tool_name
        + "`. You may explain to the user that the timeout config is set too low."@
}

/// What an MCP tool returns when its call failed: `error` is the failure's
/// message, `None` when the call ran out of time. A failure whose message
/// speaks of a timeout counts as one.
pub fn mcp_call_failure(tool_name: &str, error: Option<&str>) -> (r: ToolReturnValue)
    ensures
        r matches ToolReturnValue::Error { error: e } && e@ == match error {
            None => mcp_timeout_text(tool_name@),
            Some(m) => {
                let l = crate::text::to_lowercase_result(m@);
                if find_sub_from(l, "timeout"@, 0) is Some || find_sub_from(l, "timed out"@, 0) is Some {
                    mcp_timeout_text(tool_name@)
                } else {
                    "MCP tool call failed: "@ + m@
                }
            },
        },
{
    let timed_out = match error {
        None => true,
        Some(m) => {
            let l = chars_of(crate::text::to_lowercase(m).as_str());
            find_sub_exec(&l, &chars_of("timeout")).is_some() || find_sub_exec(&l, &chars_of("timed out")).is_some()
        },
    };
    if timed_out {
        let mut t = chars_of("Timeout while calling MCP tool `");
        append_vec(&mut t, &chars_of(tool_name));
        append_vec(&mut t, &chars_of("`. You may explain to the user that the timeout config is set too low."));
        return ToolReturnValue::Error { error: string_of(&t) };
    }
    let mut t = chars_of("MCP tool call failed: ");
    match error {
        Some(m) => append_vec(&mut t, &chars_of(m)),
        None => {},
    }
    ToolReturnValue::Error { error: string_of(&t) }
}


/// How `mcp test` lists a tool's description: as it is up to 50 bytes;
/// longer, its first 47 bytes and `...`. `None` where byte 47 falls inside
/// a character, where slicing the text panics.
pub open spec fn short_description_spec(desc: Seq<char>) -> Option<Seq<char>> {
    if utf8_len(desc) <= 50 {
        Some(desc)
    } else {
        match byte_prefix(desc, 47) {
            Some(p) => Some(p + "..."@),
            None => None,
        }
    }
}

/// Shortens a tool's description for `mcp test` (see
/// `short_description_spec`).
pub fn short_tool_description(desc: &str) -> (r: Option<String>)
    requires
        utf8_len(desc@) <= usize::MAX,
    ensures
        match short_description_spec(desc@) {
            Some(s) => r matches Some(x) && x@ == s,
            None => r is None,
        },
{
    let v = chars_of(desc);
    if utf8_len_of(&v) <= 50 {
        return Some(desc.to_string());
    }
    match byte_prefix_exec(&v, 47) {
        Some(mut p) => {
            append_vec(&mut p, &chars_of("..."));
            Some(string_of(&p))
        },
        None => None,
    }
}

} // verus!
