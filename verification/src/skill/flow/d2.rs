//! Parser for D2 flowcharts: markdown blocks, top-level statements, node and
//! edge statements, labels.
use super::{
    Flow, FlowEdge, FlowError, FlowNode, FlowOutgoing, NodeDef, NodeDefView, FlowEdgeView,
    FlowView, OutView, define_node, flow_result_matches, finish_flow, finish_spec, touch_all, define_node_spec, defs_view, line_error_exec, line_error_spec,
    out_add_edge, out_add_edge_exec, out_touch, out_touch_exec, outgoing_view, has_edge, lemma_add_edge_records,
    lemma_touch_keeps_edges,
};
use crate::text::{lemma_split_char_len, split_char, split_char_exec, vecs_view, 
    append_vec, chars_of, contains_char, is_ws_exec, join, join_exec, occurs_at, occurs_at_exec, string_of,
    starts_with, sub_vec, trim, trim_range, trim_vec,
};
use crate::pattern::{regex_is_match, regex_is_match_result};
use vstd::prelude::*;

verus! {

/// Line endings normalized: `\r\n` and lone `\r` both become `\n`.
pub open spec fn norm_nl(s: Seq<char>) -> Seq<char>
    decreases s.len(),
{
    if s.len() == 0 {
        Seq::empty()
    } else if s[0] == '\r' && s.len() >= 2 && s[1] == '\n' {
        seq!['\n'] + norm_nl(s.subrange(2, s.len() as int))
    } else if s[0] == '\r' {
        seq!['\n'] + norm_nl(s.subrange(1, s.len() as int))
    } else {
        seq![s[0]] + norm_nl(s.subrange(1, s.len() as int))
    }
}

pub fn norm_nl_exec(v: &Vec<char>) -> (r: Vec<char>)
    ensures
        r@ == norm_nl(v@),
{
    let mut r: Vec<char> = Vec::new();
    let mut i: usize = 0;
    assert(v@.subrange(0, v.len() as int) =~= v@);
    assert(r@ + norm_nl(v@) =~= norm_nl(v@));
    while i < v.len()
        invariant
            i <= v.len(),
            norm_nl(v@) == r@ + norm_nl(v@.subrange(i as int, v.len() as int)),
        decreases v.len() - i,
    {
        let ghost rest = v@.subrange(i as int, v.len() as int);
        if v[i] == '\r' && i + 1 < v.len() && v[i + 1] == '\n' {
            assert(rest.subrange(2, rest.len() as int) =~= v@.subrange(i + 2, v.len() as int));
            r.push('\n');
            i += 2;
        } else if v[i] == '\r' {
            assert(rest.subrange(1, rest.len() as int) =~= v@.subrange(i + 1, v.len() as int));
            r.push('\n');
            i += 1;
        } else {
            assert(rest.subrange(1, rest.len() as int) =~= v@.subrange(i + 1, v.len() as int));
            r.push(v[i]);
            i += 1;
        }
    }
    assert(norm_nl(v@.subrange(i as int, v.len() as int)) =~= Seq::<char>::empty());
    r
}

/// Quote-aware scan: the first position at or after `i` where `tok` occurs
/// outside single and double quotes. A backslash inside quotes escapes the
/// next character; quotes of one kind do not count inside the other.
pub open spec fn scan_unquoted(
    t: Seq<char>,
    tok: Seq<char>,
    i: int,
    sq: bool,
    dq: bool,
    esc: bool,
) -> Option<int>
    decreases t.len() - i,
{
    if i < 0 || i >= t.len() {
        None
    } else if esc {
        scan_unquoted(t, tok, i + 1, sq, dq, false)
    } else if t[i] == '\\' && (sq || dq) {
        scan_unquoted(t, tok, i + 1, sq, dq, true)
    } else if t[i] == '\'' && !dq {
        scan_unquoted(t, tok, i + 1, !sq, dq, false)
    } else if t[i] == '"' && !sq {
        scan_unquoted(t, tok, i + 1, sq, !dq, false)
    } else if !sq && !dq && occurs_at(t, i, tok) {
        Some(i)
    } else {
        scan_unquoted(t, tok, i + 1, sq, dq, false)
    }
}

pub proof fn lemma_scan_unquoted_bounds(
    t: Seq<char>,
    tok: Seq<char>,
    i: int,
    sq: bool,
    dq: bool,
    esc: bool,
)
    requires
        0 <= i,
    ensures
        scan_unquoted(t, tok, i, sq, dq, esc) matches Some(b) ==> i <= b && b + tok.len()
            <= t.len(),
    decreases t.len() - i,
{
    if i < t.len() {
        lemma_scan_unquoted_bounds(t, tok, i + 1, sq, dq, false);
        lemma_scan_unquoted_bounds(t, tok, i + 1, !sq, dq, false);
        lemma_scan_unquoted_bounds(t, tok, i + 1, sq, !dq, false);
        lemma_scan_unquoted_bounds(t, tok, i + 1, sq, dq, true);
    }
}

/// Position of the first unquoted occurrence of `tok` in `t`.
pub fn scan_unquoted_exec(t: &Vec<char>, tok: &Vec<char>) -> (r: Option<usize>)
    ensures
        r is Some ==> scan_unquoted(t@, tok@, 0, false, false, false) == Some(r->0 as int) && r->0
            + tok@.len() <= t@.len(),
        r is None ==> scan_unquoted(t@, tok@, 0, false, false, false) is None,
{
    proof {
        lemma_scan_unquoted_bounds(t@, tok@, 0, false, false, false);
    }
    let mut sq = false;
    let mut dq = false;
    let mut esc = false;
    let mut i: usize = 0;
    while i < t.len()
        invariant
            i <= t.len(),
            scan_unquoted(t@, tok@, 0, false, false, false) == scan_unquoted(
                t@,
                tok@,
                i as int,
                sq,
                dq,
                esc,
            ),
        decreases t.len() - i,
    {
        let ch = t[i];
        if esc {
            esc = false;
        } else if ch == '\\' && (sq || dq) {
            esc = true;
        } else if ch == '\'' && !dq {
            sq = !sq;
        } else if ch == '"' && !sq {
            dq = !dq;
        } else if !sq && !dq && occurs_at_exec(t, i, tok) {
            return Some(i);
        }
        i += 1;
    }
    None
}

/// `split_unquoted_once`: both sides of the first unquoted `tok`, trimmed;
/// the whole text, trimmed, when there is none.
pub open spec fn split_once_spec(t: Seq<char>, tok: Seq<char>) -> (Seq<char>, Option<Seq<char>>) {
    match scan_unquoted(t, tok, 0, false, false, false) {
        Some(b) => (trim(t.subrange(0, b)), Some(trim(t.subrange(b + tok.len(), t.len() as int)))),
        None => (trim(t), None),
    }
}

pub fn split_unquoted_once(t: &Vec<char>, tok: &Vec<char>) -> (r: (Vec<char>, Option<Vec<char>>))
    ensures
        r.0@ == split_once_spec(t@, tok@).0,
        match r.1 {
            Some(s) => split_once_spec(t@, tok@).1 == Some(s@),
            None => split_once_spec(t@, tok@).1 is None,
        },
{
    match scan_unquoted_exec(t, tok) {
        Some(b) => {
            let tl = tok.len();
            let total = t.len();
            assert(b + tl <= total);
            let (a0, a1) = trim_range(t, 0, b);
            let (c0, c1) = trim_range(t, b + tl, total);
            (sub_vec(t, a0, a1), Some(sub_vec(t, c0, c1)))
        },
        None => {
            assert(t@.subrange(0, t@.len() as int) =~= t@);
            (trim_vec(t), None)
        },
    }
}

/// `strip_unquoted_comment`: the text before the first unquoted `#`.
pub open spec fn strip_comment_spec(t: Seq<char>) -> Seq<char> {
    match scan_unquoted(t, "#"@, 0, false, false, false) {
        Some(b) => t.subrange(0, b),
        None => t,
    }
}

pub fn strip_unquoted_comment(t: &Vec<char>) -> (r: Vec<char>)
    ensures
        r@ == strip_comment_spec(t@),
{
    let hash = chars_of("#");
    match scan_unquoted_exec(t, &hash) {
        Some(b) => sub_vec(t, 0, b),
        None => {
            assert(t@.subrange(0, t@.len() as int) =~= t@);
            sub_vec(t, 0, t.len())
        },
    }
}

/// `split_on_token`: the trimmed pieces between unquoted occurrences of `tok`,
/// scanning from `i` with the piece under way starting at `start`.
pub open spec fn split_tok(
    t: Seq<char>,
    tok: Seq<char>,
    i: int,
    start: int,
    sq: bool,
    dq: bool,
    esc: bool,
) -> Seq<Seq<char>>
    recommends
        tok.len() > 0,
    decreases t.len() - i,
{
    if i < 0 || i >= t.len() || tok.len() == 0 {
        seq![trim(t.subrange(start, t.len() as int))]
    } else if !sq && !dq && occurs_at(t, i, tok) {
        seq![trim(t.subrange(start, i))] + split_tok(
            t,
            tok,
            i + tok.len(),
            i + tok.len(),
            sq,
            dq,
            esc,
        )
    } else if esc {
        split_tok(t, tok, i + 1, start, sq, dq, false)
    } else if t[i] == '\\' && (sq || dq) {
        split_tok(t, tok, i + 1, start, sq, dq, true)
    } else if t[i] == '\'' && !dq {
        split_tok(t, tok, i + 1, start, !sq, dq, false)
    } else if t[i] == '"' && !sq {
        split_tok(t, tok, i + 1, start, sq, !dq, false)
    } else {
        split_tok(t, tok, i + 1, start, sq, dq, false)
    }
}

pub open spec fn split_on_token_spec(t: Seq<char>, tok: Seq<char>) -> Seq<Seq<char>> {
    split_tok(t, tok, 0, 0, false, false, false)
}

pub fn split_on_token(t: &Vec<char>, tok: &Vec<char>) -> (r: Vec<Vec<char>>)
    requires
        tok@.len() > 0,
    ensures
        vecs_view(r@) == split_on_token_spec(t@, tok@),
{
    let mut parts: Vec<Vec<char>> = Vec::new();
    let mut sq = false;
    let mut dq = false;
    let mut esc = false;
    let mut start: usize = 0;
    let mut i: usize = 0;
    while i < t.len()
        invariant
            tok@.len() > 0,
            start <= i <= t.len(),
            split_on_token_spec(t@, tok@) == vecs_view(parts@) + split_tok(
                t@,
                tok@,
                i as int,
                start as int,
                sq,
                dq,
                esc,
            ),
        decreases t.len() - i,
    {
        if !sq && !dq && occurs_at_exec(t, i, tok) {
            let (a, b) = trim_range(t, start, i);
            let ghost before = vecs_view(parts@);
            parts.push(sub_vec(t, a, b));
            assert(vecs_view(parts@) =~= before.push(trim(t@.subrange(start as int, i as int))));
            i += tok.len();
            start = i;
        } else {
            let ch = t[i];
            if esc {
                esc = false;
            } else if ch == '\\' && (sq || dq) {
                esc = true;
            } else if ch == '\'' && !dq {
                sq = !sq;
            } else if ch == '"' && !sq {
                dq = !dq;
            }
            i += 1;
        }
    }
    let (a, b) = trim_range(t, start, t.len());
    let ghost before = vecs_view(parts@);
    parts.push(sub_vec(t, a, b));
    assert(vecs_view(parts@) =~= before.push(trim(t@.subrange(start as int, t.len() as int))));
    parts
}

/// State of the top-level statement scanner.
pub struct StmtScan {
    pub depth: nat,
    pub sq: bool,
    pub dq: bool,
    pub esc: bool,
    pub drop: bool,
    pub buf: Seq<char>,
    pub line: nat,
    pub stmt_line: nat,
}

/// The statement collected so far, if it is not blank once trimmed.
pub open spec fn emit(line: nat, buf: Seq<char>) -> Seq<(nat, Seq<char>)> {
    if trim(buf).len() > 0 {
        seq![(line, trim(buf))]
    } else {
        Seq::empty()
    }
}

pub open spec fn prepend(
    e: Seq<(nat, Seq<char>)>,
    r: Result<Seq<(nat, Seq<char>)>, Seq<char>>,
) -> Result<Seq<(nat, Seq<char>)>, Seq<char>> {
    match r {
        Ok(x) => Ok(e + x),
        Err(m) => Err(m),
    }
}

/// First position at or after `i` holding a newline (or the end).
pub open spec fn next_nl(t: Seq<char>, i: int) -> int
    decreases t.len() - i,
{
    if i < 0 || i >= t.len() || t[i] == '\n' {
        i
    } else {
        next_nl(t, i + 1)
    }
}

pub proof fn lemma_next_nl(t: Seq<char>, i: int)
    requires
        0 <= i <= t.len(),
    ensures
        i <= next_nl(t, i) <= t.len(),
        forall|j: int| i <= j < next_nl(t, i) ==> t[j] != '\n',
        next_nl(t, i) < t.len() ==> t[next_nl(t, i)] == '\n',
    decreases t.len() - i,
{
    if i < t.len() && t[i] != '\n' {
        lemma_next_nl(t, i + 1);
    }
}

/// The statements at brace depth zero, each with the line it starts on:
/// statements end at newlines outside quotes, `\` before a newline joins
/// lines, `#` starts a comment outside quotes, a `{ ... }` block is dropped
/// together with the rest of its first line, and a statement before a `{`
/// ends there.
pub open spec fn stmts(t: Seq<char>, i: int, st: StmtScan) -> Result<
    Seq<(nat, Seq<char>)>,
    Seq<char>,
>
    decreases t.len() - i,
{
    if i < 0 || i >= t.len() {
        if st.depth != 0 {
            Err(line_error_spec(st.line, "Unclosed '{' block"@))
        } else if st.sq || st.dq {
            Err(line_error_spec(st.line, "Unclosed string"@))
        } else {
            Ok(emit(st.stmt_line, st.buf))
        }
    } else {
        let ch = t[i];
        let next = if i + 1 < t.len() {
            t[i + 1]
        } else {
            '\0'
        };
        if ch == '\\' && next == '\n' {
            stmts(t, i + 2, StmtScan { line: st.line + 1, ..st })
        } else if ch == '\n' {
            if (st.sq || st.dq) && st.depth == 0 && !st.drop {
                stmts(t, i + 1, StmtScan { buf: st.buf.push('\n'), line: st.line + 1, ..st })
            } else {
                let e = if st.depth == 0 && !st.sq && !st.dq && !st.drop {
                    emit(st.stmt_line, st.buf)
                } else {
                    Seq::empty()
                };
                prepend(
                    e,
                    stmts(
                        t,
                        i + 1,
                        StmtScan {
                            buf: Seq::empty(),
                            drop: false,
                            stmt_line: st.line + 1,
                            line: st.line + 1,
                            ..st
                        },
                    ),
                )
            }
        } else if !st.sq && !st.dq && ch == '#' {
            let j = next_nl(t, i + 1);
            proof {
                lemma_next_nl(t, i + 1);
            }
            stmts(t, j, st)
        } else if !st.sq && !st.dq && ch == '{' {
            if st.depth == 0 {
                prepend(
                    emit(st.stmt_line, st.buf),
                    stmts(t, i + 1, StmtScan { drop: true, buf: Seq::empty(), depth: 1, ..st }),
                )
            } else {
                stmts(t, i + 1, StmtScan { depth: st.depth + 1, ..st })
            }
        } else if !st.sq && !st.dq && ch == '}' && st.depth > 0 {
            stmts(t, i + 1, StmtScan { depth: (st.depth - 1) as nat, ..st })
        } else if !st.sq && !st.dq && ch == '}' {
            Err(line_error_spec(st.line, "Unmatched '}'"@))
        } else {
            let tog_s = ch == '\'' && !st.dq && !st.esc;
            let sq2 = if tog_s {
                !st.sq
            } else {
                st.sq
            };
            let dq2 = if !tog_s && ch == '"' && !st.sq && !st.esc {
                !st.dq
            } else {
                st.dq
            };
            let esc2 = if st.esc {
                false
            } else {
                ch == '\\' && (sq2 || dq2)
            };
            let buf2 = if st.depth == 0 && !st.drop {
                st.buf.push(ch)
            } else {
                st.buf
            };
            stmts(t, i + 1, StmtScan { sq: sq2, dq: dq2, esc: esc2, buf: buf2, ..st })
        }
    }
}

pub open spec fn stmt_scan_init() -> StmtScan {
    StmtScan {
        depth: 0,
        sq: false,
        dq: false,
        esc: false,
        drop: false,
        buf: Seq::empty(),
        line: 1,
        stmt_line: 1,
    }
}

/// `iter_top_level_statements` on a text (after line endings are normalized).
pub open spec fn top_level_statements(t: Seq<char>) -> Result<Seq<(nat, Seq<char>)>, Seq<char>> {
    stmts(norm_nl(t), 0, stmt_scan_init())
}

pub open spec fn stmts_view(v: Seq<(usize, Vec<char>)>) -> Seq<(nat, Seq<char>)> {
    v.map_values(|p: (usize, Vec<char>)| (p.0 as nat, p.1@))
}

pub proof fn lemma_prepend_assoc(
    a: Seq<(nat, Seq<char>)>,
    b: Seq<(nat, Seq<char>)>,
    r: Result<Seq<(nat, Seq<char>)>, Seq<char>>,
)
    ensures
        prepend(a, prepend(b, r)) == prepend(a + b, r),
{
    match r {
        Ok(x) => {
            assert(a + (b + x) =~= (a + b) + x);
        },
        Err(_) => {},
    }
}

fn emit_exec(out: &mut Vec<(usize, Vec<char>)>, line: usize, buf: &Vec<char>)
    ensures
        stmts_view(final(out)@) == stmts_view(old(out)@) + emit(line as nat, buf@),
{
    let t = trim_vec(buf);
    if t.len() > 0 {
        let ghost before = stmts_view(out@);
        out.push((line, t));
        assert(stmts_view(out@) =~= before + emit(line as nat, buf@));
    } else {
        assert(stmts_view(out@) =~= stmts_view(out@) + emit(line as nat, buf@));
    }
}

pub open spec fn scan_state(
    depth: usize,
    sq: bool,
    dq: bool,
    esc: bool,
    drop: bool,
    buf: Seq<char>,
    line: usize,
    stmt_line: usize,
) -> StmtScan {
    StmtScan {
        depth: depth as nat,
        sq,
        dq,
        esc,
        drop,
        buf,
        line: line as nat,
        stmt_line: stmt_line as nat,
    }
}

/// Splits a D2 text into its top-level statements.
pub fn iter_top_level_statements(text: &Vec<char>) -> (r: Result<
    Vec<(usize, Vec<char>)>,
    Vec<char>,
>)
    requires
        text@.len() < usize::MAX,
    ensures
        match top_level_statements(text@) {
            Ok(s) => r is Ok && stmts_view(r->Ok_0@) == s,
            Err(m) => r is Err && r->Err_0@ == m,
        },
{
    let t = norm_nl_exec(text);
    proof {
        lemma_norm_nl_len(text@);
    }
    let mut depth: usize = 0;
    let mut sq = false;
    let mut dq = false;
    let mut esc = false;
    let mut drop = false;
    let mut buf: Vec<char> = Vec::new();
    let mut line: usize = 1;
    let mut stmt_line: usize = 1;
    let mut i: usize = 0;
    let mut result: Vec<(usize, Vec<char>)> = Vec::new();
    assert(stmts_view(result@) =~= Seq::<(nat, Seq<char>)>::empty());
    proof {
        match stmts(t@, 0, stmt_scan_init()) {
            Ok(x) => {
                assert(Seq::<(nat, Seq<char>)>::empty() + x =~= x);
            },
            Err(_) => {},
        }
    }
    while i < t.len()
        invariant
            t@.len() < usize::MAX,
            i <= t.len() + 1,
            line <= i + 1,
            stmt_line <= line,
            depth <= i,
            top_level_statements(text@) == stmts(t@, 0, stmt_scan_init()),
            stmts(t@, 0, stmt_scan_init()) == prepend(
                stmts_view(result@),
                stmts(t@, i as int, scan_state(depth, sq, dq, esc, drop, buf@, line, stmt_line)),
            ),
        decreases t.len() + 1 - i,
    {
        let ch = t[i];
        let next = if i + 1 < t.len() {
            t[i + 1]
        } else {
            '\0'
        };
        if ch == '\\' && next == '\n' {
            i += 2;
            line += 1;
            continue;
        }
        if ch == '\n' {
            if (sq || dq) && depth == 0 && !drop {
                buf.push('\n');
                line += 1;
                i += 1;
                continue;
            }
            let ghost before = stmts_view(result@);
            let ghost e = if depth == 0 && !sq && !dq && !drop {
                emit(stmt_line as nat, buf@)
            } else {
                Seq::<(nat, Seq<char>)>::empty()
            };
            if depth == 0 && !sq && !dq && !drop {
                emit_exec(&mut result, stmt_line, &buf);
            } else {
                assert(stmts_view(result@) =~= before + e);
            }
            buf = Vec::new();
            drop = false;
            stmt_line = line + 1;
            line += 1;
            i += 1;
            proof {
                lemma_prepend_assoc(
                    before,
                    e,
                    stmts(t@, i as int, scan_state(depth, sq, dq, esc, drop, buf@, line, stmt_line)),
                );
            }
            continue;
        }
        if !sq && !dq {
            if ch == '#' {
                proof {
                    lemma_next_nl(t@, i + 1);
                }
                let ghost j = next_nl(t@, i + 1);
                i += 1;
                while i < t.len() && t[i] != '\n'
                    invariant
                        i <= t.len(),
                        j == next_nl(t@, i as int),
                    decreases t.len() - i,
                {
                    i += 1;
                }
                continue;
            }
            if ch == '{' {
                if depth == 0 {
                    let ghost before = stmts_view(result@);
                    let ghost e = emit(stmt_line as nat, buf@);
                    emit_exec(&mut result, stmt_line, &buf);
                    drop = true;
                    buf = Vec::new();
                    depth = 1;
                    i += 1;
                    proof {
                        lemma_prepend_assoc(
                            before,
                            e,
                            stmts(
                                t@,
                                i as int,
                                scan_state(depth, sq, dq, esc, drop, buf@, line, stmt_line),
                            ),
                        );
                    }
                } else {
                    depth += 1;
                    i += 1;
                }
                continue;
            }
            if ch == '}' && depth > 0 {
                depth -= 1;
                i += 1;
                continue;
            }
            if ch == '}' && depth == 0 {
                return Err(line_error_exec(line, &chars_of("Unmatched '}'")));
            }
        }
        let tog_s = ch == '\'' && !dq && !esc;
        if tog_s {
            sq = !sq;
        } else if ch == '"' && !sq && !esc {
            dq = !dq;
        }
        if esc {
            esc = false;
        } else {
            esc = ch == '\\' && (sq || dq);
        }
        if depth == 0 && !drop {
            buf.push(ch);
        }
        i += 1;
    }
    if depth != 0 {
        return Err(line_error_exec(line, &chars_of("Unclosed '{' block")));
    }
    if sq || dq {
        return Err(line_error_exec(line, &chars_of("Unclosed string")));
    }
    let ghost before = stmts_view(result@);
    emit_exec(&mut result, stmt_line, &buf);
    proof {
        assert(stmts(t@, i as int, scan_state(depth, sq, dq, esc, drop, buf@, line, stmt_line))
            == Ok::<Seq<(nat, Seq<char>)>, Seq<char>>(emit(stmt_line as nat, buf@)));
    }
    Ok(result)
}

pub proof fn lemma_norm_nl_len(s: Seq<char>)
    ensures
        norm_nl(s).len() <= s.len(),
    decreases s.len(),
{
    if s.len() > 0 {
        if s[0] == '\r' && s.len() >= 2 && s[1] == '\n' {
            lemma_norm_nl_len(s.subrange(2, s.len() as int));
        } else {
            lemma_norm_nl_len(s.subrange(1, s.len() as int));
        }
    }
}

/// Count of leading spaces and tabs.
pub open spec fn lead(l: Seq<char>) -> nat
    decreases l.len(),
{
    if l.len() > 0 && (l[0] == ' ' || l[0] == '\t') {
        1 + lead(l.subrange(1, l.len() as int))
    } else {
        0
    }
}

/// The smallest indentation among the lines that are not blank.
pub open spec fn min_indent(lines: Seq<Seq<char>>) -> Option<nat>
    decreases lines.len(),
{
    if lines.len() == 0 {
        None
    } else {
        let r = min_indent(lines.drop_last());
        let l = lines.last();
        if trim(l).len() == 0 {
            r
        } else {
            match r {
                None => Some(lead(l)),
                Some(m) => Some(
                    if lead(l) < m {
                        lead(l)
                    } else {
                        m
                    },
                ),
            }
        }
    }
}

pub open spec fn dedent_line(l: Seq<char>, ind: nat) -> Seq<char> {
    if l.len() >= ind {
        l.subrange(ind as int, l.len() as int)
    } else {
        l
    }
}

/// `dedent_block`: the common indentation of the non-blank lines removed.
pub open spec fn dedent_spec(lines: Seq<Seq<char>>) -> Seq<Seq<char>> {
    let ind = match min_indent(lines) {
        Some(m) => m,
        None => 0,
    };
    lines.map_values(|l: Seq<char>| dedent_line(l, ind))
}

pub proof fn lemma_lead_le(l: Seq<char>)
    ensures
        lead(l) <= l.len(),
    decreases l.len(),
{
    if l.len() > 0 && (l[0] == ' ' || l[0] == '\t') {
        lemma_lead_le(l.subrange(1, l.len() as int));
    }
}

fn lead_exec(l: &Vec<char>) -> (r: usize)
    ensures
        r == lead(l@),
{
    let mut k: usize = 0;
    assert(l@.subrange(0, l.len() as int) =~= l@);
    while k < l.len() && (l[k] == ' ' || l[k] == '\t')
        invariant
            k <= l.len(),
            lead(l@) == k + lead(l@.subrange(k as int, l.len() as int)),
        decreases l.len() - k,
    {
        assert(l@.subrange(k as int, l.len() as int).subrange(1, l.len() - k) =~= l@.subrange(
            k + 1,
            l.len() as int,
        ));
        k += 1;
    }
    k
}

fn dedent_block(lines: &Vec<Vec<char>>) -> (r: Vec<Vec<char>>)
    ensures
        vecs_view(r@) == dedent_spec(vecs_view(lines@)),
{
    let ghost lv = vecs_view(lines@);
    let mut indent: Option<usize> = None;
    let mut i: usize = 0;
    while i < lines.len()
        invariant
            i <= lines.len(),
            lv == vecs_view(lines@),
            match min_indent(lv.subrange(0, i as int)) {
                Some(m) => m <= usize::MAX && indent == Some(m as usize),
                None => indent is None,
            },
        decreases lines.len() - i,
    {
        assert(lv.subrange(0, i + 1).drop_last() =~= lv.subrange(0, i as int));
        assert(lv[i as int] == lines@[i as int]@);
        let t = trim_vec(&lines[i]);
        if t.len() > 0 {
            let ld = lead_exec(&lines[i]);
            proof {
                lemma_lead_le(lines@[i as int]@);
            }
            match indent {
                None => {
                    indent = Some(ld);
                },
                Some(m) => {
                    if ld < m {
                        indent = Some(ld);
                    }
                },
            }
        }
        i += 1;
    }
    assert(lv.subrange(0, lines.len() as int) =~= lv);
    let ind: usize = match indent {
        Some(m) => m,
        None => 0,
    };
    let mut r: Vec<Vec<char>> = Vec::new();
    let mut k: usize = 0;
    while k < lines.len()
        invariant
            k <= lines.len(),
            lv == vecs_view(lines@),
            ind == (match min_indent(lv) {
                Some(m) => m,
                None => 0,
            }),
            vecs_view(r@) == lv.subrange(0, k as int).map_values(
                |l: Seq<char>| dedent_line(l, ind as nat),
            ),
        decreases lines.len() - k,
    {
        let l = &lines[k];
        assert(lv[k as int] == l@);
        let d = if l.len() >= ind {
            sub_vec(l, ind, l.len())
        } else {
            sub_vec(l, 0, l.len())
        };
        assert(l@.subrange(0, l.len() as int) =~= l@);
        let ghost before = vecs_view(r@);
        r.push(d);
        assert(vecs_view(r@) =~= before.push(d@));
        assert(lv.subrange(0, k + 1).map_values(|l: Seq<char>| dedent_line(l, ind as nat))
            =~= lv.subrange(0, k as int).map_values(|l: Seq<char>| dedent_line(l, ind as nat)).push(
            dedent_line(lv[k as int], ind as nat),
        ));
        k += 1;
    }
    assert(lv.subrange(0, lines.len() as int) =~= lv);
    r
}

pub open spec fn esc_char(c: char) -> Seq<char> {
    if c == '\\' {
        seq!['\\', '\\']
    } else if c == '"' {
        seq!['\\', '"']
    } else {
        seq![c]
    }
}

/// `escape_quoted_line`: backslashes doubled, double quotes escaped.
pub open spec fn escape_spec(l: Seq<char>) -> Seq<char>
    decreases l.len(),
{
    if l.len() == 0 {
        Seq::empty()
    } else {
        escape_spec(l.drop_last()) + esc_char(l.last())
    }
}

fn escape_quoted_line(l: &Vec<char>) -> (r: Vec<char>)
    ensures
        r@ == escape_spec(l@),
{
    let mut r: Vec<char> = Vec::new();
    let mut i: usize = 0;
    while i < l.len()
        invariant
            i <= l.len(),
            r@ == escape_spec(l@.subrange(0, i as int)),
        decreases l.len() - i,
    {
        assert(l@.subrange(0, i + 1).drop_last() =~= l@.subrange(0, i as int));
        let c = l[i];
        let ghost before = r@;
        if c == '\\' {
            r.push('\\');
            r.push('\\');
        } else if c == '"' {
            r.push('\\');
            r.push('"');
        } else {
            r.push(c);
        }
        assert(r@ =~= before + esc_char(c));
        i += 1;
    }
    assert(l@.subrange(0, l.len() as int) =~= l@);
    r
}

/// First line at or after `k` that is `|` once trimmed: the end of a markdown block.
pub open spec fn close_idx(lines: Seq<Seq<char>>, k: int) -> Option<int>
    decreases lines.len() - k,
{
    if k < 0 || k >= lines.len() {
        None
    } else if trim(lines[k]) == "|"@ {
        Some(k)
    } else {
        close_idx(lines, k + 1)
    }
}

pub proof fn lemma_close_idx(lines: Seq<Seq<char>>, k: int)
    requires
        0 <= k,
    ensures
        match close_idx(lines, k) {
            Some(j) => k <= j < lines.len() && trim(lines[j]) == "|"@ && forall|m: int|
                k <= m < j ==> trim(#[trigger] lines[m]) != "|"@,
            None => forall|m: int| k <= m < lines.len() ==> trim(#[trigger] lines[m]) != "|"@,
        },
    decreases lines.len() - k,
{
    if k < lines.len() && trim(lines[k]) != "|"@ {
        lemma_close_idx(lines, k + 1);
    }
}

/// The line a markdown block becomes: `prefix: "..."` with the dedented,
/// escaped lines joined by `\n` escapes.
pub open spec fn md_block_line(prefix: Seq<char>, block: Seq<Seq<char>>) -> Seq<char> {
    if block.len() > 0 {
        prefix + ": \""@ + join(
            dedent_spec(block).map_values(|l: Seq<char>| escape_spec(l)),
            "\\n"@,
        ) + "\""@
    } else {
        prefix + ": \"\""@
    }
}

/// A line whose value (after the first unquoted `:`, without comment) is `|md`.
pub open spec fn is_md_open(line: Seq<char>) -> bool {
    match split_once_spec(line, ":"@).1 {
        Some(suf) => trim(strip_comment_spec(suf)) == "|md"@,
        None => false,
    }
}

pub open spec fn cons_lines(
    l: Seq<char>,
    r: Result<Seq<Seq<char>>, Seq<char>>,
) -> Result<Seq<Seq<char>>, Seq<char>> {
    match r {
        Ok(x) => Ok(seq![l] + x),
        Err(m) => Err(m),
    }
}

/// The lines from `i` on with every markdown block turned into one quoted line.
pub open spec fn md_lines(lines: Seq<Seq<char>>, i: int) -> Result<Seq<Seq<char>>, Seq<char>>
    decreases lines.len() - i,
{
    if i < 0 || i >= lines.len() {
        Ok(Seq::empty())
    } else if !is_md_open(lines[i]) {
        cons_lines(lines[i], md_lines(lines, i + 1))
    } else {
        match close_idx(lines, i + 1) {
            None => Err(line_error_spec((i + 1) as nat, "Unclosed markdown block"@)),
            Some(j) => {
                proof {
                    lemma_close_idx(lines, i + 1);
                }
                cons_lines(
                    md_block_line(split_once_spec(lines[i], ":"@).0, lines.subrange(i + 1, j)),
                    md_lines(lines, j + 1),
                )
            },
        }
    }
}

/// `normalize_markdown_blocks`: the text with each `key: |md ... |` block
/// replaced by one line holding the block as a quoted string.
pub open spec fn normalize_md_spec(text: Seq<char>) -> Result<Seq<char>, Seq<char>> {
    match md_lines(split_char(norm_nl(text), '\n'), 0) {
        Ok(ls) => Ok(join(ls, "\n"@)),
        Err(m) => Err(m),
    }
}

pub open spec fn prepend_lines(
    done: Seq<Seq<char>>,
    r: Result<Seq<Seq<char>>, Seq<char>>,
) -> Result<Seq<Seq<char>>, Seq<char>> {
    match r {
        Ok(x) => Ok(done + x),
        Err(m) => Err(m),
    }
}

fn md_block_line_exec(prefix: &Vec<char>, block: &Vec<Vec<char>>) -> (r: Vec<char>)
    ensures
        r@ == md_block_line(prefix@, vecs_view(block@)),
{
    let mut r = sub_vec(prefix, 0, prefix.len());
    assert(prefix@.subrange(0, prefix.len() as int) =~= prefix@);
    if block.len() > 0 {
        let d = dedent_block(block);
        let mut escaped: Vec<Vec<char>> = Vec::new();
        let mut i: usize = 0;
        while i < d.len()
            invariant
                i <= d.len(),
                vecs_view(escaped@) == vecs_view(d@).subrange(0, i as int).map_values(
                    |l: Seq<char>| escape_spec(l),
                ),
            decreases d.len() - i,
        {
            let e = escape_quoted_line(&d[i]);
            let ghost before = vecs_view(escaped@);
            escaped.push(e);
            assert(vecs_view(escaped@) =~= before.push(e@));
            assert(vecs_view(d@)[i as int] == d@[i as int]@);
            assert(vecs_view(d@).subrange(0, i + 1).map_values(|l: Seq<char>| escape_spec(l))
                =~= vecs_view(d@).subrange(0, i as int).map_values(|l: Seq<char>| escape_spec(l)).push(
                escape_spec(vecs_view(d@)[i as int]),
            ));
            i += 1;
        }
        assert(vecs_view(d@).subrange(0, d.len() as int) =~= vecs_view(d@));
        append_vec(&mut r, &chars_of(": \""));
        let j = join_exec(&escaped, &chars_of("\\n"));
        assert(escaped@.map_values(|p: Vec<char>| p@) == vecs_view(escaped@));
        append_vec(&mut r, &j);
        append_vec(&mut r, &chars_of("\""));
    } else {
        append_vec(&mut r, &chars_of(": \"\""));
    }
    r
}

/// Rewrites markdown blocks into quoted single-line values.
pub fn normalize_markdown_blocks(text: &Vec<char>) -> (r: Result<Vec<char>, Vec<char>>)
    requires
        text@.len() < usize::MAX,
    ensures
        match normalize_md_spec(text@) {
            Ok(s) => r is Ok && r->Ok_0@ == s,
            Err(m) => r is Err && r->Err_0@ == m,
        },
{
    let normalized = norm_nl_exec(text);
    let lines = split_char_exec(&normalized, '\n');
    let ghost lv = vecs_view(lines@);
    let mut out: Vec<Vec<char>> = Vec::new();
    let mut i: usize = 0;
    let colon = chars_of(":");
    proof {
        match md_lines(lv, 0) {
            Ok(x) => {
                assert(Seq::<Seq<char>>::empty() + x =~= x);
            },
            Err(_) => {},
        }
        assert(vecs_view(out@) =~= Seq::<Seq<char>>::empty());
    }
    while i < lines.len()
        invariant
            i <= lines.len(),
            lv == vecs_view(lines@),
            lv == split_char(norm_nl(text@), '\n'),
            colon@ == ":"@,
            md_lines(lv, 0) == prepend_lines(vecs_view(out@), md_lines(lv, i as int)),
        decreases lines.len() - i,
    {
        let line = &lines[i];
        assert(lv[i as int] == line@);
        let (prefix, suffix) = split_unquoted_once(line, &colon);
        let is_open = match &suffix {
            Some(suf) => {
                let st = strip_unquoted_comment(suf);
                let t = trim_vec(&st);
                crate::text::eq_vec(&t, &chars_of("|md"))
            },
            None => false,
        };
        assert(is_open == is_md_open(lv[i as int]));
        if !is_open {
            let ghost before = vecs_view(out@);
            out.push(sub_vec(line, 0, line.len()));
            assert(line@.subrange(0, line.len() as int) =~= line@);
            assert(vecs_view(out@) =~= before.push(line@));
            proof {
                match md_lines(lv, i + 1) {
                    Ok(x) => {
                        assert(before + (seq![line@] + x) =~= before.push(line@) + x);
                    },
                    Err(_) => {},
                }
            }
            i += 1;
            continue;
        }
        let mut j = i + 1;
        proof {
            lemma_close_idx(lv, i + 1);
        }
        let mut found = false;
        while j < lines.len() && !found
            invariant
                i + 1 <= j <= lines.len(),
                lv == vecs_view(lines@),
                found ==> j < lines.len() && close_idx(lv, i + 1) == Some(j as int),
                !found ==> close_idx(lv, i + 1) == close_idx(lv, j as int),
            decreases lines.len() - j + (if found {
                0int
            } else {
                1int
            }),
        {
            assert(lv[j as int] == lines@[j as int]@);
            let t = trim_vec(&lines[j]);
            if crate::text::eq_vec(&t, &chars_of("|")) {
                found = true;
            } else {
                j += 1;
            }
        }
        if !found {
            return Err(line_error_exec(i + 1, &chars_of("Unclosed markdown block")));
        }
        let mut block: Vec<Vec<char>> = Vec::new();
        let mut k = i + 1;
        while k < j
            invariant
                i + 1 <= k <= j < lines.len(),
                lv == vecs_view(lines@),
                vecs_view(block@) == lv.subrange(i + 1, k as int),
            decreases j - k,
        {
            let ghost before = vecs_view(block@);
            assert(lv[k as int] == lines@[k as int]@);
            let d = sub_vec(&lines[k], 0, lines[k].len());
            assert(lines@[k as int]@.subrange(0, lines@[k as int]@.len() as int) =~= lines@[k as int]@);
            assert(d@ == lv[k as int]);
            block.push(d);
            assert(vecs_view(block@) =~= before.push(d@));
            assert(vecs_view(block@) =~= lv.subrange(i + 1, k + 1));
            k += 1;
        }
        let bl = md_block_line_exec(&prefix, &block);
        let ghost before = vecs_view(out@);
        out.push(bl);
        assert(vecs_view(out@) =~= before.push(bl@));
        proof {
            match md_lines(lv, j + 1) {
                Ok(x) => {
                    assert(before + (seq![bl@] + x) =~= before.push(bl@) + x);
                },
                Err(_) => {},
            }
        }
        i = j + 1;
    }
    let joined = join_exec(&out, &chars_of("\n"));
    assert(out@.map_values(|p: Vec<char>| p@) == vecs_view(out@));
    proof {
        assert(vecs_view(out@) + Seq::<Seq<char>>::empty() =~= vecs_view(out@));
    }
    Ok(joined)
}

/// The segments that name a D2 property rather than a node.
pub open spec fn is_prop_seg(p: Seq<char>) -> bool {
    p == "shape"@
        || p == "style"@
        || p == "label"@
        || p == "link"@
        || p == "icon"@
        || p == "near"@
        || p == "width"@
        || p == "height"@
        || p == "direction"@
        || p == "grid-rows"@
        || p == "grid-columns"@
        || p == "grid-gap"@
        || p == "font-size"@
        || p == "font-family"@
        || p == "font-color"@
        || p == "stroke"@
        || p == "fill"@
        || p == "opacity"@
        || p == "padding"@
        || p == "border-radius"@
        || p == "shadow"@
        || p == "sketch"@
        || p == "animated"@
        || p == "multiple"@
        || p == "constraint"@
        || p == "tooltip"@
}

fn is_prop_seg_exec(p: &Vec<char>) -> (r: bool)
    ensures
        r == is_prop_seg(p@),
{
    if crate::text::eq_vec(p, &chars_of("shape")) {
        return true;
    }
    if crate::text::eq_vec(p, &chars_of("style")) {
        return true;
    }
    if crate::text::eq_vec(p, &chars_of("label")) {
        return true;
    }
    if crate::text::eq_vec(p, &chars_of("link")) {
        return true;
    }
    if crate::text::eq_vec(p, &chars_of("icon")) {
        return true;
    }
    if crate::text::eq_vec(p, &chars_of("near")) {
        return true;
    }
    if crate::text::eq_vec(p, &chars_of("width")) {
        return true;
    }
    if crate::text::eq_vec(p, &chars_of("height")) {
        return true;
    }
    if crate::text::eq_vec(p, &chars_of("direction")) {
        return true;
    }
    if crate::text::eq_vec(p, &chars_of("grid-rows")) {
        return true;
    }
    if crate::text::eq_vec(p, &chars_of("grid-columns")) {
        return true;
    }
    if crate::text::eq_vec(p, &chars_of("grid-gap")) {
        return true;
    }
    if crate::text::eq_vec(p, &chars_of("font-size")) {
        return true;
    }
    if crate::text::eq_vec(p, &chars_of("font-family")) {
        return true;
    }
    if crate::text::eq_vec(p, &chars_of("font-color")) {
        return true;
    }
    if crate::text::eq_vec(p, &chars_of("stroke")) {
        return true;
    }
    if crate::text::eq_vec(p, &chars_of("fill")) {
        return true;
    }
    if crate::text::eq_vec(p, &chars_of("opacity")) {
        return true;
    }
    if crate::text::eq_vec(p, &chars_of("padding")) {
        return true;
    }
    if crate::text::eq_vec(p, &chars_of("border-radius")) {
        return true;
    }
    if crate::text::eq_vec(p, &chars_of("shadow")) {
        return true;
    }
    if crate::text::eq_vec(p, &chars_of("sketch")) {
        return true;
    }
    if crate::text::eq_vec(p, &chars_of("animated")) {
        return true;
    }
    if crate::text::eq_vec(p, &chars_of("multiple")) {
        return true;
    }
    if crate::text::eq_vec(p, &chars_of("constraint")) {
        return true;
    }
    if crate::text::eq_vec(p, &chars_of("tooltip")) {
        return true;
    }
    false
}

/// The non-empty pieces, in order.
pub open spec fn nonempty_parts(ps: Seq<Seq<char>>) -> Seq<Seq<char>>
    decreases ps.len(),
{
    if ps.len() == 0 {
        Seq::empty()
    } else {
        let r = nonempty_parts(ps.drop_last());
        if ps.last().len() > 0 {
            r.push(ps.last())
        } else {
            r
        }
    }
}

/// `is_property_path`: a dotted path whose later segments (or last one) name a
/// property, like `a.style.fill` or `x.shape`. `None` for a path made only of
/// dots, on which the check indexes past its pieces.
pub open spec fn is_property_path_spec(id: Seq<char>) -> Option<bool> {
    if !id.contains('.') {
        Some(false)
    } else {
        let parts = nonempty_parts(split_char(id, '.'));
        if parts.len() == 0 {
            None
        } else if exists|j: int|
            1 <= j < parts.len() && (is_prop_seg(#[trigger] parts[j]) || starts_with(
                parts[j],
                "style"@,
            )) {
            Some(true)
        } else {
            Some(is_prop_seg(parts.last()))
        }
    }
}

fn is_property_path(id: &Vec<char>) -> (r: Option<bool>)
    ensures
        r == is_property_path_spec(id@),
{
    if !contains_char(id, '.') {
        return Some(false);
    }
    let pieces = split_char_exec(id, '.');
    let ghost pv = vecs_view(pieces@);
    let mut parts: Vec<Vec<char>> = Vec::new();
    let mut i: usize = 0;
    while i < pieces.len()
        invariant
            i <= pieces.len(),
            pv == vecs_view(pieces@),
            vecs_view(parts@) == nonempty_parts(pv.subrange(0, i as int)),
        decreases pieces.len() - i,
    {
        assert(pv.subrange(0, i + 1).drop_last() =~= pv.subrange(0, i as int));
        assert(pv[i as int] == pieces@[i as int]@);
        if pieces[i].len() > 0 {
            let ghost before = vecs_view(parts@);
            let d = sub_vec(&pieces[i], 0, pieces[i].len());
            assert(pieces@[i as int]@.subrange(0, pieces@[i as int]@.len() as int) =~= pieces@[i as int]@);
            parts.push(d);
            assert(vecs_view(parts@) =~= before.push(d@));
        }
        i += 1;
    }
    assert(pv.subrange(0, pieces.len() as int) =~= pv);
    let ghost ps = vecs_view(parts@);
    if parts.len() == 0 {
        return None;
    }
    let style = chars_of("style");
    let mut k: usize = 1;
    while k < parts.len()
        invariant
            1 <= k <= parts.len(),
            ps == vecs_view(parts@),
            ps == nonempty_parts(split_char(id@, '.')),
            id@.contains('.'),
            style@ == "style"@,
            forall|j: int|
                1 <= j < k ==> !(is_prop_seg(#[trigger] ps[j]) || starts_with(ps[j], "style"@)),
        decreases parts.len() - k,
    {
        assert(ps[k as int] == parts@[k as int]@);
        let st = occurs_at_exec(&parts[k], 0, &style);
        assert(st == starts_with(ps[k as int], "style"@));
        if is_prop_seg_exec(&parts[k]) || st {
            assert(1 <= k < ps.len() && (is_prop_seg(ps[k as int]) || starts_with(ps[k as int], "style"@)));
            return Some(true);
        }
        k += 1;
    }
    assert(ps[ps.len() - 1] == parts@[parts.len() - 1]@);
    Some(is_prop_seg_exec(&parts[parts.len() - 1]))
}

/// Reading a quoted label from position `i`, with `buf` read so far.
pub open spec fn quoted_scan(
    t: Seq<char>,
    quote: char,
    i: int,
    esc: bool,
    buf: Seq<char>,
    line: nat,
) -> Result<Seq<char>, Seq<char>>
    decreases t.len() - i,
{
    if i < 0 || i >= t.len() {
        Err(line_error_spec(line, "Unclosed quoted label"@))
    } else if esc {
        quoted_scan(t, quote, i + 1, false, buf.push(t[i]), line)
    } else if t[i] == '\\' {
        quoted_scan(t, quote, i + 1, true, buf, line)
    } else if t[i] == quote {
        if trim(t.subrange(i + 1, t.len() as int)).len() > 0 {
            Err(line_error_spec(line, "Unexpected trailing content"@))
        } else {
            Ok(buf)
        }
    } else {
        quoted_scan(t, quote, i + 1, false, buf.push(t[i]), line)
    }
}

/// `parse_label`: the trimmed text; when it starts with a quote, the quoted
/// content with backslash escapes resolved, nothing allowed after the
/// closing quote.
pub open spec fn parse_label_spec(text: Seq<char>, line: nat) -> Result<Seq<char>, Seq<char>> {
    let l = trim(text);
    if l.len() == 0 {
        Err(line_error_spec(line, "Label cannot be empty"@))
    } else if l[0] == '\'' || l[0] == '"' {
        quoted_scan(l, l[0], 1, false, Seq::empty(), line)
    } else {
        Ok(l)
    }
}

fn parse_quoted_label(t: &Vec<char>, line: usize) -> (r: Result<Vec<char>, Vec<char>>)
    requires
        t@.len() > 0,
    ensures
        match quoted_scan(t@, t@[0], 1, false, Seq::empty(), line as nat) {
            Ok(s) => r is Ok && r->Ok_0@ == s,
            Err(m) => r is Err && r->Err_0@ == m,
        },
{
    let quote = t[0];
    let mut buf: Vec<char> = Vec::new();
    let mut esc = false;
    let mut i: usize = 1;
    while i < t.len()
        invariant
            1 <= i <= t.len(),
            quote == t@[0],
            quoted_scan(t@, quote, 1, false, Seq::empty(), line as nat) == quoted_scan(
                t@,
                quote,
                i as int,
                esc,
                buf@,
                line as nat,
            ),
        decreases t.len() - i,
    {
        let ch = t[i];
        if esc {
            buf.push(ch);
            esc = false;
            i += 1;
            continue;
        }
        if ch == '\\' {
            esc = true;
            i += 1;
            continue;
        }
        if ch == quote {
            let (a, b) = trim_range(t, i + 1, t.len());
            if b > a {
                return Err(line_error_exec(line, &chars_of("Unexpected trailing content")));
            }
            return Ok(buf);
        }
        buf.push(ch);
        i += 1;
    }
    Err(line_error_exec(line, &chars_of("Unclosed quoted label")))
}

fn parse_label(text: &Vec<char>, line: usize) -> (r: Result<Vec<char>, Vec<char>>)
    ensures
        match parse_label_spec(text@, line as nat) {
            Ok(s) => r is Ok && r->Ok_0@ == s,
            Err(m) => r is Err && r->Err_0@ == m,
        },
{
    let l = trim_vec(text);
    if l.len() == 0 {
        return Err(line_error_exec(line, &chars_of("Label cannot be empty")));
    }
    if l[0] == '\'' || l[0] == '"' {
        parse_quoted_label(&l, line)
    } else {
        Ok(l)
    }
}

pub open spec fn node_id_pattern() -> Seq<char> {
    "^[A-Za-z0-9_][A-Za-z0-9_./-]*$"@
}

/// `parse_node_id`: the trimmed text (cut at an unquoted `:` when an inline
/// label may follow), which must match the node id pattern. `Err(None)` when
/// the pattern does not compile.
pub open spec fn parse_node_id_spec(text: Seq<char>, line: nat, allow_inline: bool) -> Result<
    Seq<char>,
    Option<Seq<char>>,
> {
    let c0 = trim(text);
    let c1 = if allow_inline {
        split_once_spec(c0, ":"@).0
    } else {
        c0
    };
    let c = trim(c1);
    if c.len() == 0 {
        Err(Some(line_error_spec(line, "Expected node id"@)))
    } else {
        match regex_is_match_result(node_id_pattern(), c) {
            None => Err(None),
            Some(true) => Ok(c),
            Some(false) => Err(
                Some(line_error_spec(line, "Invalid node id \""@ + c + "\""@)),
            ),
        }
    }
}

pub open spec fn opt_err_view(e: Option<Vec<char>>) -> Option<Seq<char>> {
    match e {
        Some(v) => Some(v@),
        None => None,
    }
}

fn parse_node_id(text: &Vec<char>, line: usize, allow_inline: bool) -> (r: Result<
    Vec<char>,
    Option<Vec<char>>,
>)
    ensures
        match parse_node_id_spec(text@, line as nat, allow_inline) {
            Ok(s) => r is Ok && r->Ok_0@ == s,
            Err(e) => r is Err && opt_err_view(r->Err_0) == e,
        },
{
    let c0 = trim_vec(text);
    let c1 = if allow_inline {
        split_unquoted_once(&c0, &chars_of(":")).0
    } else {
        c0
    };
    let c = trim_vec(&c1);
    if c.len() == 0 {
        return Err(Some(line_error_exec(line, &chars_of("Expected node id"))));
    }
    let cs = string_of(&c);
    match regex_is_match("^[A-Za-z0-9_][A-Za-z0-9_./-]*$", cs.as_str()) {
        None => Err(None),
        Some(true) => Ok(c),
        Some(false) => {
            let mut m = chars_of("Invalid node id \"");
            append_vec(&mut m, &c);
            append_vec(&mut m, &chars_of("\""));
            Err(Some(line_error_exec(line, &m)))
        },
    }
}


pub open spec fn lift_err<T>(r: Result<T, Seq<char>>) -> Result<T, Option<Seq<char>>> {
    match r {
        Ok(x) => Ok(x),
        Err(m) => Err(Some(m)),
    }
}

/// The rest of a node statement once its id text is known.
pub open spec fn node_stmt_rest(
    nt: Seq<char>,
    lt: Option<Seq<char>>,
    line: nat,
    defs: Seq<NodeDefView>,
) -> Result<Seq<NodeDefView>, Option<Seq<char>>> {
    match parse_node_id_spec(nt, line, false) {
        Err(e) => Err(e),
        Ok(id) => match lt {
            None => lift_err(define_node_spec(defs, id, None, false, line)),
            Some(l) => if trim(l).len() == 0 {
                Ok(defs)
            } else {
                match parse_label_spec(l, line) {
                    Err(m) => Err(Some(m)),
                    Ok(lab) => lift_err(define_node_spec(defs, id, Some(lab), true, line)),
                }
            },
        },
    }
}

/// `parse_node_statement`: `id` or `id: label`; a property assignment such as
/// `a.style.fill: red` is skipped, and so is an empty label.
pub open spec fn node_stmt_spec(stmt: Seq<char>, line: nat, defs: Seq<NodeDefView>) -> Result<
    Seq<NodeDefView>,
    Option<Seq<char>>,
> {
    let (nt, lt) = split_once_spec(stmt, ":"@);
    match lt {
        Some(_) => match is_property_path_spec(nt) {
            None => Err(None),
            Some(true) => Ok(defs),
            Some(false) => node_stmt_rest(nt, lt, line, defs),
        },
        None => node_stmt_rest(nt, lt, line, defs),
    }
}

fn parse_node_statement(stmt: &Vec<char>, line: usize, nodes: &mut Vec<NodeDef>) -> (r: Result<
    (),
    Option<Vec<char>>,
>)
    ensures
        match node_stmt_spec(stmt@, line as nat, defs_view(old(nodes)@)) {
            Ok(d) => r is Ok && defs_view(final(nodes)@) == d,
            Err(e) => r is Err && opt_err_view(r->Err_0) == e,
        },
{
    let (node_text, label_text) = split_unquoted_once(stmt, &chars_of(":"));
    if label_text.is_some() {
        match is_property_path(&node_text) {
            None => {
                return Err(None);
            },
            Some(true) => {
                return Ok(());
            },
            Some(false) => {},
        }
    }
    let node_id = match parse_node_id(&node_text, line, false) {
        Ok(id) => id,
        Err(e) => {
            return Err(e);
        },
    };
    match label_text {
        None => match define_node(nodes, &node_id, None, false, line) {
            Ok(()) => Ok(()),
            Err(m) => Err(Some(m)),
        },
        Some(lt) => {
            let t = trim_vec(&lt);
            if t.len() == 0 {
                return Ok(());
            }
            match parse_label(&lt, line) {
                Err(m) => Err(Some(m)),
                Ok(lab) => match define_node(nodes, &node_id, Some(lab), true, line) {
                    Ok(()) => Ok(()),
                    Err(m) => Err(Some(m)),
                },
            }
        },
    }
}

/// Node ids of the pieces of an edge statement from `k` on: every piece but
/// the last may carry an inline label.
pub open spec fn parse_ids(ps: Seq<Seq<char>>, line: nat, k: int) -> Result<
    Seq<Seq<char>>,
    Option<Seq<char>>,
>
    decreases ps.len() - k,
{
    if k < 0 || k >= ps.len() {
        Ok(Seq::empty())
    } else {
        match parse_node_id_spec(ps[k], line, k < ps.len() - 1) {
            Err(e) => Err(e),
            Ok(id) => match parse_ids(ps, line, k + 1) {
                Err(e) => Err(e),
                Ok(rest) => Ok(seq![id] + rest),
            },
        }
    }
}

/// Whether one of the ids from `k` on is a property path (`None` where the
/// check would index past its pieces).
pub open spec fn any_prop(ids: Seq<Seq<char>>, k: int) -> Option<bool>
    decreases ids.len() - k,
{
    if k < 0 || k >= ids.len() {
        Some(false)
    } else {
        match is_property_path_spec(ids[k]) {
            None => None,
            Some(true) => Some(true),
            Some(false) => any_prop(ids, k + 1),
        }
    }
}

/// The edges of a chain `a -> b -> c` from position `k` on; the label goes on
/// the last edge.
pub open spec fn add_chain(out: OutView, ids: Seq<Seq<char>>, label: Option<Seq<char>>, k: int) -> OutView
    decreases ids.len() - k,
{
    if k < 0 || k + 1 >= ids.len() {
        out
    } else {
        let e = FlowEdgeView {
            src: ids[k],
            dst: ids[k + 1],
            label: if k == ids.len() - 2 {
                label
            } else {
                None
            },
        };
        add_chain(out_touch(out_add_edge(out, e), ids[k + 1]), ids, label, k + 1)
    }
}

proof fn lemma_chain_keeps_edges(out: OutView, ids: Seq<Seq<char>>, label: Option<Seq<char>>, k: int, x: FlowEdgeView)
    requires
        has_edge(out, x),
    ensures
        has_edge(add_chain(out, ids, label, k), x),
    decreases ids.len() - k,
{
    if !(k < 0 || k + 1 >= ids.len()) {
        let e = FlowEdgeView {
            src: ids[k],
            dst: ids[k + 1],
            label: if k == ids.len() - 2 {
                label
            } else {
                None
            },
        };
        lemma_add_edge_records(out, e, x);
        lemma_touch_keeps_edges(out_add_edge(out, e), ids[k + 1], x);
        lemma_chain_keeps_edges(out_touch(out_add_edge(out, e), ids[k + 1]), ids, label, k + 1, x);
    }
}

/// An edge statement `a -> ... -> y -> z: label` records the label on its
/// last edge: after the chain is added, `y`'s outgoing edges hold the edge
/// from `y` to `z` with that label.
pub proof fn lemma_chain_label_on_last_edge(out: OutView, ids: Seq<Seq<char>>, label: Option<Seq<char>>, k: int)
    requires
        0 <= k,
        k + 2 <= ids.len(),
    ensures
        has_edge(
            add_chain(out, ids, label, k),
            FlowEdgeView { src: ids[ids.len() - 2], dst: ids[ids.len() - 1], label },
        ),
    decreases ids.len() - k,
{
    let last = FlowEdgeView { src: ids[ids.len() - 2], dst: ids[ids.len() - 1], label };
    let e = FlowEdgeView {
        src: ids[k],
        dst: ids[k + 1],
        label: if k == ids.len() - 2 {
            label
        } else {
            None
        },
    };
    let next = out_touch(out_add_edge(out, e), ids[k + 1]);
    if k + 2 == ids.len() {
        assert(e == last);
        lemma_add_edge_records(out, e, e);
        lemma_touch_keeps_edges(out_add_edge(out, e), ids[k + 1], e);
        lemma_chain_keeps_edges(next, ids, label, k + 1, e);
    } else {
        lemma_chain_label_on_last_edge(next, ids, label, k + 1);
    }
}

/// Every id of a chain defined as an implicit node, from position `k` on.
pub open spec fn define_all(defs: Seq<NodeDefView>, ids: Seq<Seq<char>>, line: nat, k: int) -> Result<
    Seq<NodeDefView>,
    Seq<char>,
>
    decreases ids.len() - k,
{
    if k < 0 || k >= ids.len() {
        Ok(defs)
    } else {
        match define_node_spec(defs, ids[k], None, false, line) {
            Err(m) => Err(m),
            Ok(d) => define_all(d, ids, line, k + 1),
        }
    }
}

/// `parse_edge_statement`: `a -> b -> c: label`. Edges that touch a property
/// path are skipped.
pub open spec fn edge_stmt_spec(
    stmt: Seq<char>,
    line: nat,
    defs: Seq<NodeDefView>,
    out: OutView,
) -> Result<(Seq<NodeDefView>, OutView), Option<Seq<char>>> {
    let parts = split_on_token_spec(stmt, "->"@);
    if parts.len() < 2 {
        Err(Some(line_error_spec(line, "Expected edge arrow"@)))
    } else {
        let (target, el) = split_once_spec(parts.last(), ":"@);
        let ps = parts.drop_last().push(target);
        match parse_ids(ps, line, 0) {
            Err(e) => Err(e),
            Ok(ids) => match any_prop(ids, 0) {
                None => Err(None),
                Some(true) => Ok((defs, out)),
                Some(false) => if ids.len() < 2 {
                    Err(Some(line_error_spec(line, "Edge must have at least two nodes"@)))
                } else {
                    let lab = match el {
                        None => Ok(None),
                        Some(l) => match parse_label_spec(l, line) {
                            Ok(x) => Ok(Some(x)),
                            Err(m) => Err(m),
                        },
                    };
                    match lab {
                        Err(m) => Err(Some(m)),
                        Ok(label) => match define_all(defs, ids, line, 0) {
                            Err(m) => Err(Some(m)),
                            Ok(d) => Ok((d, add_chain(out, ids, label, 0))),
                        },
                    }
                },
            },
        }
    }
}

/// A labelled edge statement keeps its label: when `a -> b: L` (or a
/// longer chain) is accepted and `L` reads as the label `x`, the flow gains
/// an edge labelled `x`, unless the statement only touches a property path
/// and adds nothing.
pub proof fn lemma_edge_statement_keeps_label(
    stmt: Seq<char>,
    line: nat,
    defs: Seq<NodeDefView>,
    out: OutView,
    l: Seq<char>,
    x: Seq<char>,
)
    requires
        edge_stmt_spec(stmt, line, defs, out) is Ok,
        split_once_spec(split_on_token_spec(stmt, "->"@).last(), ":"@).1 == Some(l),
        parse_label_spec(l, line) == Ok::<Seq<char>, Seq<char>>(x),
    ensures
        ({
            let (d, o) = edge_stmt_spec(stmt, line, defs, out)->Ok_0;
            (d == defs && o == out) || exists|e: FlowEdgeView| has_edge(o, e) && e.label == Some(x)
        }),
{
    let parts = split_on_token_spec(stmt, "->"@);
    let (target, el) = split_once_spec(parts.last(), ":"@);
    let ps = parts.drop_last().push(target);
    let ids = parse_ids(ps, line, 0)->Ok_0;
    if any_prop(ids, 0) == Some(false) {
        lemma_chain_label_on_last_edge(out, ids, Some(x), 0);
        let (d, o) = edge_stmt_spec(stmt, line, defs, out)->Ok_0;
        let e = FlowEdgeView { src: ids[ids.len() - 2], dst: ids[ids.len() - 1], label: Some(x) };
        assert(has_edge(o, e));
    }
}

pub open spec fn cons_ids(
    done: Seq<Seq<char>>,
    r: Result<Seq<Seq<char>>, Option<Seq<char>>>,
) -> Result<Seq<Seq<char>>, Option<Seq<char>>> {
    match r {
        Ok(x) => Ok(done + x),
        Err(e) => Err(e),
    }
}

#[verifier::loop_isolation(false)]
fn parse_edge_statement(
    stmt: &Vec<char>,
    line: usize,
    nodes: &mut Vec<NodeDef>,
    outgoing: &mut Vec<FlowOutgoing>,
) -> (r: Result<(), Option<Vec<char>>>)
    ensures
        match edge_stmt_spec(stmt@, line as nat, defs_view(old(nodes)@), outgoing_view(old(outgoing)@)) {
            Ok((d, o)) => r is Ok && defs_view(final(nodes)@) == d && outgoing_view(final(outgoing)@) == o,
            Err(e) => r is Err && opt_err_view(r->Err_0) == e,
        },
{
    let arrow = chars_of("->");
    proof {
        reveal_strlit("->");
    }
    let mut parts = split_on_token(stmt, &arrow);
    if parts.len() < 2 {
        return Err(Some(line_error_exec(line, &chars_of("Expected edge arrow"))));
    }
    let ghost pv = vecs_view(parts@);
    let last_part = parts.pop().unwrap();
    let (target_text, edge_label) = split_unquoted_once(&last_part, &chars_of(":"));
    parts.push(target_text);
    let ghost ps = vecs_view(parts@);
    assert(ps =~= pv.drop_last().push(split_once_spec(pv.last(), ":"@).0));
    let mut node_ids: Vec<Vec<char>> = Vec::new();
    let mut idx: usize = 0;
    proof {
        match parse_ids(ps, line as nat, 0) {
            Ok(x) => {
                assert(Seq::<Seq<char>>::empty() + x =~= x);
            },
            Err(_) => {},
        }
        assert(vecs_view(node_ids@) =~= Seq::<Seq<char>>::empty());
    }
    while idx < parts.len()
        invariant
            idx <= parts.len(),
            ps == vecs_view(parts@),
            parse_ids(ps, line as nat, 0) == cons_ids(vecs_view(node_ids@), parse_ids(ps, line as nat, idx as int)),
        decreases parts.len() - idx,
    {
        assert(ps[idx as int] == parts@[idx as int]@);
        match parse_node_id(&parts[idx], line, idx < parts.len() - 1) {
            Err(e) => {
                return Err(e);
            },
            Ok(id) => {
                let ghost before = vecs_view(node_ids@);
                node_ids.push(id);
                assert(vecs_view(node_ids@) =~= before.push(id@));
                proof {
                    match parse_ids(ps, line as nat, idx + 1) {
                        Ok(x) => {
                            assert(before + (seq![id@] + x) =~= before.push(id@) + x);
                        },
                        Err(_) => {},
                    }
                }
            },
        }
        idx += 1;
    }
    let ghost ids = vecs_view(node_ids@);
    assert(ids + Seq::<Seq<char>>::empty() =~= ids);
    let mut k: usize = 0;
    while k < node_ids.len()
        invariant
            k <= node_ids.len(),
            ids == vecs_view(node_ids@),
            any_prop(ids, 0) == any_prop(ids, k as int),
        decreases node_ids.len() - k,
    {
        assert(ids[k as int] == node_ids@[k as int]@);
        match is_property_path(&node_ids[k]) {
            None => {
                return Err(None);
            },
            Some(true) => {
                return Ok(());
            },
            Some(false) => {},
        }
        k += 1;
    }
    if node_ids.len() < 2 {
        return Err(Some(line_error_exec(line, &chars_of("Edge must have at least two nodes"))));
    }
    let label: Option<Vec<char>> = match edge_label {
        None => None,
        Some(l) => match parse_label(&l, line) {
            Ok(x) => Some(x),
            Err(m) => {
                return Err(Some(m));
            },
        },
    };
    let ghost lv: Option<Seq<char>> = match label {
        Some(ref x) => Some(x@),
        None => None,
    };
    let ghost out0 = outgoing_view(outgoing@);
    let mut c: usize = 0;
    while c + 1 < node_ids.len()
        invariant
            c + 1 <= node_ids.len(),
            node_ids.len() >= 2,
            ids == vecs_view(node_ids@),
            lv == (match label {
                Some(x) => Some(x@),
                None => None::<Seq<char>>,
            }),
            add_chain(out0, ids, lv, 0) == add_chain(outgoing_view(outgoing@), ids, lv, c as int),
        decreases node_ids.len() - c,
    {
        let edge_label: Option<String> = if c == node_ids.len() - 2 {
            match &label {
                Some(x) => Some(string_of(x)),
                None => None,
            }
        } else {
            None
        };
        assert(ids[c as int] == node_ids@[c as int]@);
        assert(ids[c + 1] == node_ids@[c + 1]@);
        let e = FlowEdge {
            src: string_of(&node_ids[c]),
            dst: string_of(&node_ids[c + 1]),
            label: edge_label,
        };
        out_add_edge_exec(outgoing, e);
        let dst = string_of(&node_ids[c + 1]);
        out_touch_exec(outgoing, &dst);
        c += 1;
    }
    let mut m: usize = 0;
    let ghost defs0 = defs_view(nodes@);
    while m < node_ids.len()
        invariant
            m <= node_ids.len(),
            ids == vecs_view(node_ids@),
            define_all(defs0, ids, line as nat, 0) == define_all(defs_view(nodes@), ids, line as nat, m as int),
        decreases node_ids.len() - m,
    {
        assert(ids[m as int] == node_ids@[m as int]@);
        match define_node(nodes, &node_ids[m], None, false, line) {
            Ok(()) => {},
            Err(msg) => {
                return Err(Some(msg));
            },
        }
        m += 1;
    }
    Ok(())
}

/// Node and edge statements applied in order from position `k`: statements
/// with an unquoted `->` are edges, the others nodes.
pub open spec fn fold_stmts(
    ss: Seq<(nat, Seq<char>)>,
    k: int,
    defs: Seq<NodeDefView>,
    out: OutView,
) -> Result<(Seq<NodeDefView>, OutView), Option<Seq<char>>>
    decreases ss.len() - k,
{
    if k < 0 || k >= ss.len() {
        Ok((defs, out))
    } else {
        let ln = ss[k].0;
        let st = ss[k].1;
        let r = if split_on_token_spec(st, "->"@).len() > 1 {
            edge_stmt_spec(st, ln, defs, out)
        } else {
            match node_stmt_spec(st, ln, defs) {
                Ok(d) => Ok((d, out)),
                Err(e) => Err(e),
            }
        };
        match r {
            Err(e) => Err(e),
            Ok((d, o)) => fold_stmts(ss, k + 1, d, o),
        }
    }
}

/// What parsing a D2 flowchart gives: `Err(Some(message))` for a rejected
/// text, `Err(None)` for a text on which the parse indexes past a property
/// path made only of dots.
pub open spec fn d2_spec(text: Seq<char>) -> Result<FlowView, Option<Seq<char>>> {
    match normalize_md_spec(text) {
        Err(m) => Err(Some(m)),
        Ok(t2) => match top_level_statements(t2) {
            Err(m) => Err(Some(m)),
            Ok(ss) => match fold_stmts(ss, 0, Seq::empty(), Seq::empty()) {
                Err(e) => Err(e),
                Ok((defs, out)) => match finish_spec(defs, out) {
                    Err(m) => Err(Some(m)),
                    Ok(f) => Ok(f),
                },
            },
        },
    }
}

/// The texts the D2 parser takes: ASCII (the parser reads characters by byte
/// offsets), within machine limits, and not reaching a dots-only property path.
pub open spec fn d2_supported(text: Seq<char>) -> bool {
    &&& crate::text::ascii(text)
    &&& text.len() < usize::MAX
    &&& (normalize_md_spec(text) matches Ok(t2) ==> t2.len() < usize::MAX)
    &&& !(d2_spec(text) matches Err(None))
}

/// `has_unquoted_token`.
fn has_unquoted_token(text: &Vec<char>, tok: &Vec<char>) -> (r: bool)
    requires
        tok@.len() > 0,
    ensures
        r == (split_on_token_spec(text@, tok@).len() > 1),
{
    split_on_token(text, tok).len() > 1
}

/// Parses a D2 flowchart, or says that the text is outside what the parser
/// takes (`None`, see `d2_supported`).
#[verifier::loop_isolation(false)]
pub fn try_parse_d2_flowchart(text: &str) -> (r: Option<Result<Flow, FlowError>>)
    ensures
        r is None <==> !d2_supported(text@),
        r matches Some(res) ==> flow_result_matches(res, d2_spec(text@)),
{
    let tv = chars_of(text);
    if !text.is_ascii() || tv.len() == usize::MAX {
        return None;
    }
    let normalized = match normalize_markdown_blocks(&tv) {
        Ok(t) => t,
        Err(m) => {
            return Some(Err(FlowError::new(string_of(&m))));
        },
    };
    if normalized.len() == usize::MAX {
        return None;
    }
    let statements = match iter_top_level_statements(&normalized) {
        Ok(s) => s,
        Err(m) => {
            return Some(Err(FlowError::new(string_of(&m))));
        },
    };
    let ghost ss = stmts_view(statements@);
    let mut nodes: Vec<NodeDef> = Vec::new();
    let mut outgoing: Vec<FlowOutgoing> = Vec::new();
    let arrow = chars_of("->");
    proof {
        reveal_strlit("->");
        assert(defs_view(nodes@) =~= Seq::<NodeDefView>::empty());
        assert(outgoing_view(outgoing@) =~= Seq::<(Seq<char>, Seq<FlowEdgeView>)>::empty());
    }
    let mut k: usize = 0;
    while k < statements.len()
        invariant
            k <= statements.len(),
            ss == stmts_view(statements@),
            arrow@ == "->"@,
            fold_stmts(ss, 0, Seq::empty(), Seq::empty()) == fold_stmts(
                ss,
                k as int,
                defs_view(nodes@),
                outgoing_view(outgoing@),
            ),
        decreases statements.len() - k,
    {
        let (ln, st) = (statements[k].0, &statements[k].1);
        assert(ss[k as int] == (ln as nat, st@));
        if has_unquoted_token(st, &arrow) {
            match parse_edge_statement(st, ln, &mut nodes, &mut outgoing) {
                Ok(()) => {},
                Err(None) => {
                    return None;
                },
                Err(Some(m)) => {
                    return Some(Err(FlowError::new(string_of(&m))));
                },
            }
        } else {
            match parse_node_statement(st, ln, &mut nodes) {
                Ok(()) => {},
                Err(None) => {
                    return None;
                },
                Err(Some(m)) => {
                    return Some(Err(FlowError::new(string_of(&m))));
                },
            }
        }
        k += 1;
    }
    assert(fold_stmts(ss, 0, Seq::empty(), Seq::empty()) == Ok::<(Seq<NodeDefView>, OutView), Option<Seq<char>>>((defs_view(nodes@), outgoing_view(outgoing@))));
    Some(finish_flow(&nodes, outgoing))
}

/// Parses a D2 flowchart into a flow.
pub fn parse_d2_flowchart(text: &str) -> (r: Result<Flow, FlowError>)
    requires
        d2_supported(text@),
    ensures
        flow_result_matches(r, d2_spec(text@)),
{
    match try_parse_d2_flowchart(text) {
        Some(r) => r,
        None => Err(FlowError::new(String::new())),
    }
}

} // verus!
