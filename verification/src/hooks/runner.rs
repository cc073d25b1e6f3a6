//! What a hook command's outcome means: exit code 2 blocks, a JSON answer
//! denying permission blocks, anything else (failures and timeouts too)
//! allows.
use crate::text::{append_vec, chars_of, dec, dec_exec, string_of, trim, trim_vec};
use vstd::prelude::*;

verus! {

/// Action returned by a hook.
#[derive(Debug, Clone, Copy, PartialEq, Eq, Structural)]
pub enum HookAction {
    Allow,
    Block,
}

/// Result of a single hook execution.
#[derive(Debug, Clone)]
pub struct HookResult {
    pub action: HookAction,
    pub reason: String,
    pub stdout: String,
    pub stderr: String,
    pub exit_code: i32,
    pub timed_out: bool,
}

impl Default for HookResult {
    fn default() -> (r: Self)
        ensures
            r.action == HookAction::Allow,
            r.reason@.len() == 0,
            r.stdout@.len() == 0,
            r.stderr@.len() == 0,
            r.exit_code == 0,
            !r.timed_out,
    {
        HookResult {
            action: HookAction::Allow,
            reason: String::new(),
            stdout: String::new(),
            stderr: String::new(),
            exit_code: 0,
            timed_out: false,
        }
    }
}

/// A hook whose input could not be serialized: allowed.
pub fn input_failed(error: &str) -> (r: HookResult)
    ensures
        r.action == HookAction::Allow,
        r.reason@ == "input serialization failed: "@ + error@,
        r.stderr@.len() == 0,
        r.exit_code == 0,
        !r.timed_out,
{
    let mut v = chars_of("input serialization failed: ");
    append_vec(&mut v, &chars_of(error));
    HookResult { reason: string_of(&v), ..HookResult::default() }
}

/// A hook whose command could not be started: allowed.
pub fn spawn_failed(error: &str) -> (r: HookResult)
    ensures
        r.action == HookAction::Allow,
        r.reason@ == "spawn failed: "@ + error@,
        r.stderr@ == error@,
        r.exit_code == 0,
        !r.timed_out,
{
    let mut v = chars_of("spawn failed: ");
    append_vec(&mut v, &chars_of(error));
    HookResult { reason: string_of(&v), stderr: error.to_string(), ..HookResult::default() }
}

/// A hook whose command failed while running: allowed.
pub fn execution_failed(error: &str) -> (r: HookResult)
    ensures
        r.action == HookAction::Allow,
        r.reason@ == "execution failed: "@ + error@,
        r.stderr@ == error@,
        r.exit_code == 0,
        !r.timed_out,
{
    let mut v = chars_of("execution failed: ");
    append_vec(&mut v, &chars_of(error));
    HookResult { reason: string_of(&v), stderr: error.to_string(), ..HookResult::default() }
}

/// A hook that ran out of time: allowed, and marked as timed out.
pub fn timed_out(timeout: usize) -> (r: HookResult)
    ensures
        r.action == HookAction::Allow,
        r.timed_out,
        r.reason@ == "timed out after "@ + dec(timeout as nat) + "s"@,
        r.stdout@.len() == 0,
        r.stderr@.len() == 0,
        r.exit_code == 0,
{
    let mut v = chars_of("timed out after ");
    append_vec(&mut v, &dec_exec(timeout));
    append_vec(&mut v, &chars_of("s"));
    HookResult { timed_out: true, reason: string_of(&v), ..HookResult::default() }
}

/// The result of a hook that ran: exit code 2 blocks with the trimmed
/// standard error as reason; exit code 0 with a JSON answer that denies
/// permission (`deny_reason`, read from standard output) blocks with that
/// reason; anything else allows.
pub fn hook_result(stdout: String, stderr: String, exit_code: i32, deny_reason: Option<String>) -> (r: HookResult)
    ensures
        exit_code == 2 ==> r.action == HookAction::Block && r.reason@ == trim(stderr@) && r.exit_code == 2,
        exit_code == 0 && deny_reason is Some ==> r.action == HookAction::Block && r.reason@ == deny_reason->0@
            && r.exit_code == 0,
        exit_code != 2 && !(exit_code == 0 && deny_reason is Some) ==> r.action == HookAction::Allow
            && r.reason@.len() == 0 && r.exit_code == exit_code,
        r.stdout@ == stdout@,
        r.stderr@ == stderr@,
        !r.timed_out,
{
    if exit_code == 2 {
        let reason = string_of(&trim_vec(&chars_of(stderr.as_str())));
        return HookResult { action: HookAction::Block, reason, stdout, stderr, exit_code: 2, timed_out: false };
    }
    if exit_code == 0 {
        match deny_reason {
            Some(reason) => {
                return HookResult {
                    action: HookAction::Block,
                    reason,
                    stdout,
                    stderr,
                    exit_code: 0,
                    timed_out: false,
                };
            },
            None => {},
        }
    }
    HookResult { action: HookAction::Allow, reason: String::new(), stdout, stderr, exit_code, timed_out: false }
}


/// What `serde_json` reads from a hook's standard output: when it is JSON
/// with an object under `hookSpecificOutput`, that object's
/// `permissionDecision` and `permissionDecisionReason` where they are text.
pub uninterp spec fn hook_output_fields_result(stdout: Seq<char>) -> Option<(Option<Seq<char>>, Option<Seq<char>>)>;

/// Parses a hook's standard output with `serde_json::from_str` and reads the
/// decision fields of its `hookSpecificOutput` object. The result is named,
/// not restated.
#[verifier::external_body]
fn hook_output_fields(stdout: &str) -> (r: Option<(Option<String>, Option<String>)>)
    ensures
        match r {
            Some((d, reason)) => hook_output_fields_result(stdout@) == Some((
                match d {
                    Some(x) => Some(x@),
                    None => None,
                },
                match reason {
                    Some(x) => Some(x@),
                    None => None,
                },
            )),
            None => hook_output_fields_result(stdout@) is None,
        },
{
    let raw: serde_json::Value = serde_json::from_str(stdout).ok()?;
    let out = raw.get("hookSpecificOutput")?.as_object()?;
    let decision = out.get("permissionDecision").and_then(|v| v.as_str()).map(|x| x.to_string());
    let reason = out.get("permissionDecisionReason").and_then(|v| v.as_str()).map(|x| x.to_string());
    Some((decision, reason))
}

/// The reason a hook's standard output denies permission with, when it
/// does: its decision is `deny`; a missing reason is empty.
pub open spec fn hook_deny_result(stdout: Seq<char>) -> Option<Seq<char>> {
    match hook_output_fields_result(stdout) {
        Some((Some(d), reason)) => if d == "deny"@ {
            Some(match reason {
                Some(x) => x,
                None => Seq::empty(),
            })
        } else {
            None
        },
        _ => None,
    }
}

/// Reads whether a hook's standard output denies permission (see
/// `hook_deny_result`).
pub fn json_hook_deny(stdout: &str) -> (r: Option<String>)
    ensures
        match r {
            Some(x) => hook_deny_result(stdout@) == Some(x@),
            None => hook_deny_result(stdout@) is None,
        },
{
    match hook_output_fields(stdout) {
        Some((Some(d), reason)) => {
            if crate::text::eq_vec(&chars_of(d.as_str()), &chars_of("deny")) {
                match reason {
                    Some(x) => Some(x),
                    None => Some(String::new()),
                }
            } else {
                None
            }
        },
        _ => None,
    }
}

/// The result of a hook that ran, from its output and exit code: exit code
/// 2 blocks with the trimmed standard error as reason; exit code 0 with
/// non-blank standard output that denies permission blocks with the reason
/// given; anything else allows, with the exit code.
pub fn hook_outcome(stdout: String, stderr: String, exit_code: i32) -> (r: HookResult)
    ensures
        exit_code == 2 ==> r.action == HookAction::Block && r.reason@ == trim(stderr@) && r.exit_code == 2,
        exit_code == 0 && trim(stdout@).len() > 0 && hook_deny_result(stdout@) is Some ==> r.action
            == HookAction::Block && r.reason@ == hook_deny_result(stdout@)->0 && r.exit_code == 0,
        exit_code != 2 && !(exit_code == 0 && trim(stdout@).len() > 0 && hook_deny_result(stdout@) is Some)
            ==> r.action == HookAction::Allow && r.reason@.len() == 0 && r.exit_code == exit_code,
        r.stdout@ == stdout@,
        r.stderr@ == stderr@,
        !r.timed_out,
{
    let deny = if exit_code == 0 && trim_vec(&chars_of(stdout.as_str())).len() > 0 {
        json_hook_deny(stdout.as_str())
    } else {
        None
    };
    hook_result(stdout, stderr, exit_code, deny)
}

} // verus!
