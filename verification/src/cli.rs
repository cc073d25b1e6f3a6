//! Command-line surface: exit codes, the requests a shell run can end with,
//! the parsed arguments, and session-title handling.
use crate::mcp::McpCommand;
use crate::text::{append_vec, chars_of, string_of, sub_vec};
use vstd::prelude::*;

verus! {

/// Custom exit codes.
pub struct ExitCode;

impl ExitCode {
    pub const SUCCESS: i32 = 0;
    pub const FAILURE: i32 = 1;
    pub const RETRYABLE: i32 = 75;
}

/// Request to reload the configuration.
#[derive(Debug, Clone)]
pub struct Reload {
    pub session_id: Option<String>,
    pub prefill_text: Option<String>,
}

/// Request to switch to the web interface.
#[derive(Debug, Clone)]
pub struct SwitchToWeb {
    pub session_id: Option<String>,
}

/// Request to switch to the vis interface.
#[derive(Debug, Clone)]
pub struct SwitchToVis {
    pub session_id: Option<String>,
}

/// How an interactive shell run ended.
#[derive(Debug, Clone)]
pub enum ShellOutcome {
    Exit,
    Reload { session_id: Option<String>, prefill_text: Option<String> },
    SwitchToWeb { session_id: Option<String> },
    SwitchToVis { session_id: Option<String> },
}

pub const UI_MODE_SHELL: &'static str = "shell";
pub const UI_MODE_PRINT: &'static str = "print";
pub const UI_MODE_ACP: &'static str = "acp";
pub const UI_MODE_WIRE: &'static str = "wire";
pub const FORMAT_TEXT: &'static str = "text";
pub const FORMAT_STREAM_JSON: &'static str = "stream-json";

/// Parsed command-line arguments.
#[derive(Debug)]
pub struct Cli {
    pub verbose: bool,
    pub debug: bool,
    pub config: Option<String>,
    pub model: Option<String>,
    pub thinking: bool,
    pub yolo: bool,
    pub plan: bool,
    pub skills_dirs: Vec<String>,
    pub command: Option<Command>,
}

/// Subcommands.
#[derive(Debug, Clone)]
pub enum Command {
    Shell { command: Option<String> },
    Print { command: Vec<String> },
    Acp,
    Web,
    Vis,
    Sessions { archived: bool },
    Export { session_id: String },
    Import { target: String },
    Info,
    Plugin { list: bool },
    Toad,
    Mcp(McpCommand),
}

/// The suffix a session title carries: ` (<session id>)`.
pub open spec fn session_suffix(session_id: Seq<char>) -> Seq<char> {
    " ("@ + session_id + ")"@
}

/// The title without a trailing ` (<session id>)`.
pub open spec fn strip_suffix_spec(title: Seq<char>, session_id: Seq<char>) -> Seq<char> {
    let suffix = session_suffix(session_id);
    if suffix.len() <= title.len() && title.subrange(title.len() - suffix.len(), title.len() as int) == suffix {
        title.subrange(0, title.len() - suffix.len())
    } else {
        title
    }
}

/// Strips the trailing session ID suffix from a title.
pub fn strip_session_id_suffix(title: &str, session_id: &str) -> (r: String)
    ensures
        r@ == strip_suffix_spec(title@, session_id@),
{
    let t = chars_of(title);
    let mut suffix = chars_of(" (");
    append_vec(&mut suffix, &chars_of(session_id));
    append_vec(&mut suffix, &chars_of(")"));
    if suffix.len() <= t.len() {
        let start = t.len() - suffix.len();
        let tail = sub_vec(&t, start, t.len());
        if crate::text::eq_vec(&tail, &suffix) {
            return string_of(&sub_vec(&t, 0, start));
        }
    }
    string_of(&t)
}

/// Listing sessions shows archived ones only when asked to.
pub fn session_listed(show_archived: bool, archived: bool) -> (r: bool)
    ensures
        r == (show_archived || !archived),
{
    show_archived || !archived
}

} // verus!
