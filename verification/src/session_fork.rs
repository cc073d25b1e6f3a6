//! Forking a session: what of the parent's context and wire log a fork
//! keeps, and the state it starts with.
use crate::session_state::SessionState;
use crate::text::{
    append_vec, chars_of, eq_vec, join, join_exec, lines_exec, lines_spec, string_of, sub_vec, trim, trim_vec,
    vecs_view,
};
use vstd::prelude::*;

verus! {

/// What parsing a line (one JSON object per line) with `serde_json` gives
/// for one of its fields, when the line is JSON and the field is a string.
pub uninterp spec fn json_str_field_result(line: Seq<char>, key: Seq<char>) -> Option<Seq<char>>;

/// Parses a line with `serde_json::from_str` and reads a field as a string.
/// The result is named, not restated.
#[verifier::external_body]
pub(crate) fn json_str_field(line: &str, key: &str) -> (r: Option<String>)
    ensures
        match r {
            Some(s) => json_str_field_result(line@, key@) == Some(s@),
            None => json_str_field_result(line@, key@) is None,
        },
{
    serde_json::from_str::<serde_json::Value>(line).ok().and_then(|v| v.get(key).and_then(|r| r.as_str()).map(|r| r.to_string()))
}

/// A record that opens a user turn.
pub open spec fn is_user_record(line: Seq<char>) -> bool {
    json_str_field_result(line, "role"@) == Some("user"@)
}

/// The (trimmed, non-empty) records kept from line `k` on: every record up
/// to the user record that would open turn `limit + 1`.
pub open spec fn kept_records(ls: Seq<Seq<char>>, k: int, limit: nat, turns: nat, kept: Seq<Seq<char>>) -> Seq<Seq<char>>
    decreases ls.len() - k,
{
    if k < 0 || k >= ls.len() {
        kept
    } else {
        let t = trim(ls[k]);
        if t.len() == 0 {
            kept_records(ls, k + 1, limit, turns, kept)
        } else if is_user_record(t) {
            if turns > limit {
                kept
            } else {
                kept_records(ls, k + 1, limit, turns + 1, kept.push(t))
            }
        } else {
            kept_records(ls, k + 1, limit, turns, kept.push(t))
        }
    }
}

/// How many of the records open a user turn.
pub open spec fn user_count(rs: Seq<Seq<char>>) -> nat
    decreases rs.len(),
{
    if rs.len() == 0 {
        0
    } else {
        user_count(rs.drop_last()) + if is_user_record(rs.last()) {
            1nat
        } else {
            0nat
        }
    }
}

/// How many of the (trimmed, non-empty) lines from `k` on open a user turn.
pub open spec fn user_lines(ls: Seq<Seq<char>>, k: int) -> nat
    decreases ls.len() - k,
{
    if k < 0 || k >= ls.len() {
        0
    } else {
        user_lines(ls, k + 1) + if trim(ls[k]).len() > 0 && is_user_record(trim(ls[k])) {
            1nat
        } else {
            0nat
        }
    }
}

proof fn lemma_kept_turns(ls: Seq<Seq<char>>, k: int, limit: nat, turns: nat, kept: Seq<Seq<char>>)
    requires
        0 <= k,
        turns <= limit + 1,
        user_count(kept) == turns,
    ensures
        user_count(kept_records(ls, k, limit, turns, kept)) == if turns + user_lines(ls, k) <= limit + 1 {
            turns + user_lines(ls, k)
        } else {
            limit + 1
        },
    decreases ls.len() - k,
{
    if k < ls.len() {
        let t = trim(ls[k]);
        assert(kept.push(t).drop_last() =~= kept);
        if t.len() == 0 {
            lemma_kept_turns(ls, k + 1, limit, turns, kept);
        } else if is_user_record(t) {
            if turns <= limit {
                lemma_kept_turns(ls, k + 1, limit, turns + 1, kept.push(t));
            }
        } else {
            lemma_kept_turns(ls, k + 1, limit, turns, kept.push(t));
        }
    }
}

/// Truncating after turn `limit` keeps turns `0..=limit`: the records kept
/// hold `limit + 1` user records when the dump has that many or more, and
/// all of them otherwise.
pub proof fn lemma_truncate_keeps_turns(content: Seq<char>, limit: nat)
    ensures
        user_count(kept_records(lines_spec(content), 0, limit, 0, Seq::empty())) == if user_lines(
            lines_spec(content),
            0,
        ) <= limit + 1 {
            user_lines(lines_spec(content), 0)
        } else {
            limit + 1
        },
{
    lemma_kept_turns(lines_spec(content), 0, limit, 0, Seq::empty());
}

/// A context dump truncated after turn `limit` (turns counted by user
/// records, from 0): the kept records, one per line.
pub open spec fn truncate_spec(content: Seq<char>, limit: nat) -> Seq<char> {
    let kept = kept_records(lines_spec(content), 0, limit, 0, Seq::empty());
    if kept.len() == 0 {
        Seq::empty()
    } else {
        join(kept, "\n"@) + "\n"@
    }
}

/// Truncates a JSONL context dump after the given turn (see `truncate_spec`):
/// system prompts, usage and checkpoint records stay with their turn.
pub fn truncate_context_at_turn(content: &str, limit: usize) -> (r: String)
    ensures
        r@ == truncate_spec(content@, limit as nat),
{
    let ls = lines_exec(&chars_of(content));
    let ghost lv = vecs_view(ls@);
    let mut kept: Vec<Vec<char>> = Vec::new();
    let mut turns: usize = 0;
    let mut k: usize = 0;
    let user = chars_of("user");
    assert(vecs_view(kept@) =~= Seq::<Seq<char>>::empty());
    while k < ls.len()
        invariant
            k <= ls.len(),
            lv == vecs_view(ls@),
            lv == lines_spec(content@),
            turns <= k,
            user@ == "user"@,
            kept_records(lv, 0, limit as nat, 0, Seq::empty()) == kept_records(
                lv,
                k as int,
                limit as nat,
                turns as nat,
                vecs_view(kept@),
            ),
        ensures
            kept_records(lv, 0, limit as nat, 0, Seq::empty()) == vecs_view(kept@),
        decreases ls.len() - k,
    {
        assert(lv[k as int] == ls@[k as int]@);
        let t = trim_vec(&ls[k]);
        if t.len() == 0 {
            k += 1;
            continue;
        }
        let role = json_str_field(string_of(&t).as_str(), "role");
        let is_user = match role {
            Some(r) => eq_vec(&chars_of(r.as_str()), &user),
            None => false,
        };
        if is_user {
            if turns > limit {
                assert(kept_records(lv, k as int, limit as nat, turns as nat, vecs_view(kept@)) == vecs_view(kept@));
                break;
            }
            turns += 1;
        }
        let ghost before = vecs_view(kept@);
        kept.push(t);
        assert(vecs_view(kept@) =~= before.push(t@));
        k += 1;
    }
    if kept.len() == 0 {
        return String::new();
    }
    let mut out = join_exec(&kept, &chars_of("\n"));
    append_vec(&mut out, &chars_of("\n"));
    string_of(&out)
}

/// A wire record that opens a turn.
pub open spec fn is_turn_begin(line: Seq<char>) -> bool {
    json_str_field_result(line, "type"@) == Some("turn_begin"@)
}

/// The wire lines kept from line `k` on (blank lines dropped, the others
/// as they are): with a limit, every line up to the record that would open
/// turn `limit + 1`.
pub open spec fn kept_wire(ls: Seq<Seq<char>>, k: int, limit: Option<nat>, turns: nat, kept: Seq<Seq<char>>) -> Seq<
    Seq<char>,
>
    decreases ls.len() - k,
{
    if k < 0 || k >= ls.len() {
        kept
    } else if trim(ls[k]).len() == 0 {
        kept_wire(ls, k + 1, limit, turns, kept)
    } else {
        match limit {
            Some(l) => if is_turn_begin(ls[k]) {
                if turns > l {
                    kept
                } else {
                    kept_wire(ls, k + 1, limit, turns + 1, kept.push(ls[k]))
                }
            } else {
                kept_wire(ls, k + 1, limit, turns, kept.push(ls[k]))
            },
            None => kept_wire(ls, k + 1, limit, turns, kept.push(ls[k])),
        }
    }
}

/// A wire log truncated after turn `limit` (all of it without a limit):
/// the kept lines, one per line; nothing when none is kept.
pub open spec fn truncate_wire_spec(content: Seq<char>, limit: Option<nat>) -> Seq<char> {
    let kept = kept_wire(lines_spec(content), 0, limit, 0, Seq::empty());
    if kept.len() == 0 {
        Seq::empty()
    } else {
        join(kept, "\n"@) + "\n"@
    }
}

/// Truncates a wire log after the given turn (see `truncate_wire_spec`).
pub fn truncate_wire_at_turn(content: &str, limit: Option<usize>) -> (r: String)
    ensures
        r@ == truncate_wire_spec(
            content@,
            match limit {
                Some(l) => Some(l as nat),
                None => None,
            },
        ),
{
    let ghost lim = match limit {
        Some(l) => Some(l as nat),
        None => None,
    };
    let ls = lines_exec(&chars_of(content));
    let ghost lv = vecs_view(ls@);
    let mut kept: Vec<Vec<char>> = Vec::new();
    let mut turns: usize = 0;
    let mut k: usize = 0;
    let tb = chars_of("turn_begin");
    assert(vecs_view(kept@) =~= Seq::<Seq<char>>::empty());
    while k < ls.len()
        invariant
            k <= ls.len(),
            lv == vecs_view(ls@),
            lv == lines_spec(content@),
            turns <= k,
            tb@ == "turn_begin"@,
            lim == (match limit {
                Some(l) => Some(l as nat),
                None => None::<nat>,
            }),
            kept_wire(lv, 0, lim, 0, Seq::empty()) == kept_wire(lv, k as int, lim, turns as nat, vecs_view(kept@)),
        ensures
            kept_wire(lv, 0, lim, 0, Seq::empty()) == vecs_view(kept@),
        decreases ls.len() - k,
    {
        assert(lv[k as int] == ls@[k as int]@);
        let t = trim_vec(&ls[k]);
        if t.len() == 0 {
            k += 1;
            continue;
        }
        if let Some(l) = limit {
            let ty = json_str_field(string_of(&ls[k]).as_str(), "type");
            let begins = match ty {
                Some(x) => eq_vec(&chars_of(x.as_str()), &tb),
                None => false,
            };
            if begins {
                if turns > l {
                    break;
                }
                turns += 1;
            }
        }
        let ghost before = vecs_view(kept@);
        kept.push(sub_vec(&ls[k], 0, ls[k].len()));
        assert(ls@[k as int]@.subrange(0, ls@[k as int]@.len() as int) =~= ls@[k as int]@);
        assert(vecs_view(kept@) =~= before.push(lv[k as int]));
        k += 1;
    }
    if kept.len() == 0 {
        return String::new();
    }
    let mut out = join_exec(&kept, &chars_of("\n"));
    append_vec(&mut out, &chars_of("\n"));
    string_of(&out)
}

/// The state a fork starts with: the parent's, titled after the parent
/// ("Fork of <title>", counted as generated) and out of plan mode.
pub fn fork_state(parent: SessionState, parent_title: &str) -> (r: SessionState)
    ensures
        r.custom_title matches Some(t) && t@ == "Fork of "@ + parent_title@,
        r.title_generated,
        !r.plan_mode,
        r.plan_session_id is None,
        r.plan_slug is None,
        r.version == parent.version,
        r.approval == parent.approval,
        r.additional_dirs == parent.additional_dirs,
        r.title_generate_attempts == parent.title_generate_attempts,
        r.archived == parent.archived,
        r.archived_at == parent.archived_at,
        r.auto_archive_exempt == parent.auto_archive_exempt,
        r.wire_mtime == parent.wire_mtime,
        r.todos == parent.todos,
{
    let mut s = parent;
    let mut t = chars_of("Fork of ");
    append_vec(&mut t, &chars_of(parent_title));
    s.custom_title = Some(string_of(&t));
    s.title_generated = true;
    s.plan_mode = false;
    s.plan_session_id = None;
    s.plan_slug = None;
    s
}

} // verus!
