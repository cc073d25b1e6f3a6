//! Sessions: when a session holds nothing worth keeping.
use crate::session_fork::{json_str_field, json_str_field_result};
use crate::text::{chars_of, lines_exec, lines_spec, string_of, trim, trim_vec, vecs_view};
use vstd::prelude::*;

verus! {

/// A context record that is part of the conversation: a non-blank line that
/// is JSON with a text `role` not starting with `_` (internal records such
/// as checkpoints and usage start with `_`).
pub open spec fn real_record(line: Seq<char>) -> bool {
    let l = trim(line);
    &&& l.len() > 0
    &&& match json_str_field_result(l, "role"@) {
        Some(role) => !(role.len() > 0 && role[0] == '_'),
        None => false,
    }
}

/// A context file's text holds a conversation record.
pub open spec fn context_has_history(text: Seq<char>) -> bool {
    exists|i: int| 0 <= i < lines_spec(text).len() && real_record(#[trigger] lines_spec(text)[i])
}

/// Whether a context file's text holds a conversation record.
pub fn has_history(text: &str) -> (r: bool)
    ensures
        r == context_has_history(text@),
{
    let lines = lines_exec(&chars_of(text));
    let ghost ls = lines_spec(text@);
    let mut i: usize = 0;
    while i < lines.len()
        invariant
            i <= lines.len(),
            vecs_view(lines@) == ls,
            ls == lines_spec(text@),
            forall|j: int| 0 <= j < i ==> !real_record(#[trigger] ls[j]),
        decreases lines.len() - i,
    {
        assert(ls[i as int] == lines@[i as int]@);
        let l = trim_vec(&lines[i]);
        if l.len() > 0 {
            match json_str_field(string_of(&l).as_str(), "role") {
                Some(role) => {
                    let rv = chars_of(role.as_str());
                    if !(rv.len() > 0 && rv[0] == '_') {
                        assert(real_record(ls[i as int]));
                        return true;
                    }
                },
                None => {},
            }
        }
        i += 1;
    }
    false
}

/// A session is empty when it has no custom title, its wire log is empty,
/// and its context file (when it can be read) holds no conversation record.
pub fn session_is_empty(has_custom_title: bool, wire_empty: bool, context_text: Option<&str>) -> (r: bool)
    ensures
        r == (!has_custom_title && wire_empty && match context_text {
            Some(t) => !context_has_history(t@),
            None => true,
        }),
{
    if has_custom_title || !wire_empty {
        return false;
    }
    match context_text {
        Some(t) => !has_history(t),
        None => true,
    }
}

} // verus!
