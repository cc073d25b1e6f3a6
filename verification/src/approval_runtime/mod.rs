//! Approval rules: deny and auto-approve patterns over tool names, with `*`
//! wildcards, and where an approval request comes from.
pub mod requests;

use crate::pattern::{regex_escape, regex_escape_result, regex_is_match, regex_is_match_result};
use crate::text::{append_vec, chars_of, contains_char, replace_all, replace_all_exec, string_of};
use requests::ApprovalRequestRecord;
use vstd::prelude::*;

verus! {

/// `serde_json::Value`: tool-call arguments, carried through unread.
#[verifier::external_type_specification]
#[verifier::external_body]
pub struct ExJsonValue(serde_json::Value);

/// Source of an approval request.
#[derive(Debug, Clone)]
pub struct ApprovalSource {
    pub kind: String,
    pub id: String,
    pub agent_id: Option<String>,
    pub subagent_type: Option<String>,
}

impl ApprovalSource {
    /// The source of a request made during a foreground turn.
    pub fn foreground_turn(id: String) -> (r: Self)
        ensures
            r.kind@ == "foreground_turn"@,
            r.id@ == id@,
            r.agent_id is None,
            r.subagent_type is None,
    {
        ApprovalSource { kind: "foreground_turn".to_string(), id, agent_id: None, subagent_type: None }
    }
}

/// Result of evaluating approval rules.
#[derive(Debug, Clone, PartialEq, Eq)]
pub enum ApprovalDecision {
    Approve,
    Deny { reason: String },
    RequestUser,
}

/// The regular expression a wildcard pattern stands for: the pattern
/// escaped, each `*` matching any text, anchored at both ends.
pub open spec fn wildcard_regex(pattern: Seq<char>) -> Seq<char> {
    "^"@ + replace_all(regex_escape_result(pattern), "\\*"@, ".*"@) + "$"@
}

/// Whether a tool name matches a pattern: exactly, for a pattern without
/// `*`; by the pattern's regular expression otherwise (exactly again if that
/// expression does not compile).
pub open spec fn wildcard_match_spec(pattern: Seq<char>, text: Seq<char>) -> bool {
    if !pattern.contains('*') {
        pattern == text
    } else {
        match regex_is_match_result(wildcard_regex(pattern), text) {
            Some(b) => b,
            None => pattern == text,
        }
    }
}

fn wildcard_match(pattern: &String, text: &str) -> (r: bool)
    ensures
        r == wildcard_match_spec(pattern@, text@),
{
    let pv = chars_of(pattern.as_str());
    if !contains_char(&pv, '*') {
        return crate::text::eq_vec(&pv, &chars_of(text));
    }
    let escaped = chars_of(regex_escape(pattern.as_str()).as_str());
    let star = chars_of("\\*");
    proof {
        reveal_strlit("\\*");
    }
    let body = replace_all_exec(&escaped, &star, &chars_of(".*"));
    let mut re = chars_of("^");
    append_vec(&mut re, &body);
    append_vec(&mut re, &chars_of("$"));
    let res = string_of(&re);
    match regex_is_match(res.as_str(), text) {
        Some(b) => b,
        None => crate::text::eq_vec(&pv, &chars_of(text)),
    }
}

/// Approval rules: deny patterns, then auto-approve patterns, in the order
/// they were added.
#[derive(Debug, Clone, Default)]
pub struct ApprovalRuntime {
    pub auto_approve_patterns: Vec<String>,
    pub deny_patterns: Vec<String>,
    pub requests: Vec<ApprovalRequestRecord>,
}

/// Position of the first pattern, from position `k` on, that the text matches.
pub open spec fn first_match_from(patterns: Seq<String>, text: Seq<char>, k: int) -> Option<int>
    decreases patterns.len() - k,
{
    if k < 0 || k >= patterns.len() {
        None
    } else if wildcard_match_spec(patterns[k]@, text) {
        Some(k)
    } else {
        first_match_from(patterns, text, k + 1)
    }
}

pub open spec fn first_match(patterns: Seq<String>, text: Seq<char>) -> Option<int> {
    first_match_from(patterns, text, 0)
}

proof fn lemma_first_match_from(patterns: Seq<String>, text: Seq<char>, k: int)
    requires
        0 <= k,
    ensures
        first_match_from(patterns, text, k) matches Some(i) ==> k <= i < patterns.len()
            && wildcard_match_spec(patterns[i]@, text),
        first_match_from(patterns, text, k) is None ==> forall|j: int|
            k <= j < patterns.len() ==> !wildcard_match_spec(#[trigger] patterns[j]@, text),
    decreases patterns.len() - k,
{
    if k < patterns.len() && !wildcard_match_spec(patterns[k]@, text) {
        lemma_first_match_from(patterns, text, k + 1);
    }
}

fn first_match_exec(patterns: &Vec<String>, text: &str) -> (r: Option<usize>)
    ensures
        match r {
            Some(i) => first_match(patterns@, text@) == Some(i as int) && i < patterns@.len(),
            None => first_match(patterns@, text@) is None,
        },
{
    proof {
        lemma_first_match_from(patterns@, text@, 0);
    }
    let mut i: usize = 0;
    while i < patterns.len()
        invariant
            i <= patterns.len(),
            first_match(patterns@, text@) == first_match_from(patterns@, text@, i as int),
        decreases patterns.len() - i,
    {
        if wildcard_match(&patterns[i], text) {
            return Some(i);
        }
        i += 1;
    }
    None
}

/// The decision for a tool: denied by the first deny pattern it matches,
/// else approved if an auto-approve pattern matches, else the user decides.
pub open spec fn evaluate_spec(rt: ApprovalRuntime, tool: Seq<char>) -> (int, Seq<char>) {
    match first_match(rt.deny_patterns@, tool) {
        Some(i) => (
            1,
            "tool '"@ + tool + "' matched deny pattern '"@ + rt.deny_patterns@[i]@ + "'"@,
        ),
        None => if first_match(rt.auto_approve_patterns@, tool) is Some {
            (0, Seq::empty())
        } else {
            (2, Seq::empty())
        },
    }
}

pub open spec fn decision_view(d: ApprovalDecision) -> (int, Seq<char>) {
    match d {
        ApprovalDecision::Approve => (0, Seq::empty()),
        ApprovalDecision::Deny { reason } => (1, reason@),
        ApprovalDecision::RequestUser => (2, Seq::empty()),
    }
}

impl ApprovalRuntime {
    /// Adds an auto-approve pattern (`*` matches any text).
    pub fn add_auto_approve_pattern(&mut self, pattern: &str)
        ensures
            final(self).auto_approve_patterns@.map_values(|s: String| s@) == old(self).auto_approve_patterns@.map_values(
                |s: String| s@,
            ).push(pattern@),
            final(self).deny_patterns == old(self).deny_patterns,
    {
        let ghost before = self.auto_approve_patterns@;
        self.auto_approve_patterns.push(pattern.to_string());
        assert(self.auto_approve_patterns@.map_values(|s: String| s@) =~= before.map_values(|s: String| s@).push(pattern@));
    }

    /// Adds a deny pattern (`*` matches any text).
    pub fn add_deny_pattern(&mut self, pattern: &str)
        ensures
            final(self).deny_patterns@.map_values(|s: String| s@) == old(self).deny_patterns@.map_values(
                |s: String| s@,
            ).push(pattern@),
            final(self).auto_approve_patterns == old(self).auto_approve_patterns,
    {
        let ghost before = self.deny_patterns@;
        self.deny_patterns.push(pattern.to_string());
        assert(self.deny_patterns@.map_values(|s: String| s@) =~= before.map_values(|s: String| s@).push(pattern@));
    }

    /// Evaluates a tool call against the rules (see `evaluate_spec`); the
    /// arguments do not take part.
    pub fn evaluate(&self, tool_name: &str, _arguments: &serde_json::Value) -> (r: ApprovalDecision)
        ensures
            decision_view(r) == evaluate_spec(*self, tool_name@),
    {
        match first_match_exec(&self.deny_patterns, tool_name) {
            Some(i) => {
                let mut m = chars_of("tool '");
                append_vec(&mut m, &chars_of(tool_name));
                append_vec(&mut m, &chars_of("' matched deny pattern '"));
                append_vec(&mut m, &chars_of(self.deny_patterns[i].as_str()));
                append_vec(&mut m, &chars_of("'"));
                assert(first_match(self.deny_patterns@, tool_name@) == Some(i as int));
                assert(m@ =~= evaluate_spec(*self, tool_name@).1);
                ApprovalDecision::Deny { reason: string_of(&m) }
            },
            None => {
                if first_match_exec(&self.auto_approve_patterns, tool_name).is_some() {
                    assert(evaluate_spec(*self, tool_name@) == (0int, Seq::<char>::empty()));
                    ApprovalDecision::Approve
                } else {
                    ApprovalDecision::RequestUser
                }
            },
        }
    }
}

/// A deny pattern wins over any auto-approve pattern: a tool matching both
/// is denied.
pub proof fn lemma_deny_wins(rt: ApprovalRuntime, tool: Seq<char>, i: int, j: int)
    requires
        0 <= i < rt.deny_patterns@.len(),
        wildcard_match_spec(rt.deny_patterns@[i]@, tool),
        0 <= j < rt.auto_approve_patterns@.len(),
        wildcard_match_spec(rt.auto_approve_patterns@[j]@, tool),
    ensures
        evaluate_spec(rt, tool).0 == 1,
{
    lemma_first_match_from(rt.deny_patterns@, tool, 0);
}

/// A pattern without `*` matches exactly its own text.
pub proof fn lemma_plain_pattern(pattern: Seq<char>, text: Seq<char>)
    requires
        !pattern.contains('*'),
    ensures
        wildcard_match_spec(pattern, text) <==> pattern == text,
{
}

} // verus!
