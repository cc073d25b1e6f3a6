//! Parser for Mermaid flowcharts: one node or edge per line.
use super::{
    Flow, FlowEdge, FlowEdgeView, FlowError, FlowNode, FlowOutgoing, FlowView, NodeDef, OutView,
    finish_flow, finish_spec, flow_result_matches,
    NodeDefView, define_node, define_node_spec, opt_view, defs_view, line_error_exec,
    line_error_spec, out_add_edge, out_add_edge_exec, out_touch, out_touch_exec, outgoing_view,
};
use crate::pattern::{
    regex_find, regex_find_result, regex_replace_all, regex_replace_all_result,
};
use crate::text::{
    ascii, append_vec, chars_of, contains_char, eq_vec, find_char_exec, find_char_from, find_sub_exec,
    find_sub_from, lemma_find_char_from, lemma_find_sub_from, lines_exec, lines_spec, rfind_char,
    rfind_char_exec, split_char, split_char_exec, vecs_view, starts_with, starts_with_exec, is_ws, is_ws_exec, lower_seq, lower_vec, occurs_at,
    occurs_at_exec, string_of, sub_vec, trim, trim_vec,
};
use vstd::prelude::*;

verus! {

/// `skip_ws`: the first position at or after `i` that is not whitespace.
pub open spec fn skip_ws(l: Seq<char>, i: int) -> int
    decreases l.len() - i,
{
    if i < 0 || i >= l.len() || !is_ws(l[i]) {
        i
    } else {
        skip_ws(l, i + 1)
    }
}

pub proof fn lemma_skip_ws(l: Seq<char>, i: int)
    requires
        0 <= i,
    ensures
        i <= skip_ws(l, i),
        i <= l.len() ==> skip_ws(l, i) <= l.len(),
        skip_ws(l, i) < l.len() ==> !is_ws(l[skip_ws(l, i)]),
    decreases l.len() - i,
{
    if i < l.len() && is_ws(l[i]) {
        lemma_skip_ws(l, i + 1);
    }
}

fn skip_ws_exec(l: &Vec<char>, i: usize) -> (r: usize)
    ensures
        r == skip_ws(l@, i as int),
{
    let mut k = i;
    while k < l.len() && is_ws_exec(l[k])
        invariant
            i <= k,
            skip_ws(l@, i as int) == skip_ws(l@, k as int),
        decreases l.len() - k,
    {
        k += 1;
    }
    k
}

/// Result of reading a node label: the label and the position after it.
pub type LabelRead = Result<(Seq<char>, int), Seq<char>>;

/// Reading a double-quoted label from `i` (just after the opening quote),
/// with `buf` read so far; `close` must follow the closing quote.
pub open spec fn quoted_label_scan(l: Seq<char>, close: char, i: int, buf: Seq<char>, ln: nat) -> LabelRead
    decreases l.len() - i,
{
    if i < 0 || i >= l.len() {
        Err(line_error_spec(ln, "Unclosed quoted label"@))
    } else if l[i] == '"' {
        let j = skip_ws(l, i + 1);
        if j >= l.len() || l[j] != close {
            Err(line_error_spec(ln, "Unclosed node label"@))
        } else {
            Ok((buf, j + 1))
        }
    } else if l[i] == '\\' && i + 1 < l.len() {
        quoted_label_scan(l, close, i + 2, buf.push(l[i + 1]), ln)
    } else {
        quoted_label_scan(l, close, i + 1, buf.push(l[i]), ln)
    }
}

/// `parse_label` for a node shape closed by `close`, starting at `i`:
/// `([label])` nests a bracket label in a round shape, a double-quoted label
/// may hold backslash escapes, a plain label runs to the closing character
/// and is trimmed.
pub open spec fn label_spec(l: Seq<char>, i: int, close: char, ln: nat) -> LabelRead
    decreases (if close == ')' {
        1nat
    } else {
        0nat
    }),
{
    if i < 0 || i >= l.len() {
        Err(line_error_spec(ln, "Expected node label"@))
    } else if close == ')' && l[i] == '[' {
        match label_spec(l, i + 1, ']', ln) {
            Err(m) => Err(m),
            Ok((lab, j0)) => {
                let j = skip_ws(l, j0);
                if j >= l.len() || l[j] != ')' {
                    Err(line_error_spec(ln, "Unclosed node label"@))
                } else {
                    Ok((lab, j + 1))
                }
            },
        }
    } else if l[i] == '"' {
        quoted_label_scan(l, close, i + 1, Seq::empty(), ln)
    } else {
        match find_char_from(l, close, i) {
            None => Err(line_error_spec(ln, "Unclosed node label"@)),
            Some(e) => {
                let lab = trim(l.subrange(i, e));
                if lab.len() == 0 {
                    Err(line_error_spec(ln, "Node label cannot be empty"@))
                } else {
                    Ok((lab, e + 1))
                }
            },
        }
    }
}

pub open spec fn label_ok_bounds(r: LabelRead, i: int, n: int) -> bool {
    r matches Ok((lab, j)) ==> i < j <= n
}

proof fn lemma_quoted_bounds(l: Seq<char>, close: char, i: int, buf: Seq<char>, ln: nat)
    requires
        0 <= i,
    ensures
        label_ok_bounds(quoted_label_scan(l, close, i, buf, ln), i, l.len() as int),
    decreases l.len() - i,
{
    if i < l.len() {
        if l[i] == '"' {
            lemma_skip_ws(l, i + 1);
        } else if l[i] == '\\' && i + 1 < l.len() {
            lemma_quoted_bounds(l, close, i + 2, buf.push(l[i + 1]), ln);
        } else {
            lemma_quoted_bounds(l, close, i + 1, buf.push(l[i]), ln);
        }
    }
}

proof fn lemma_label_bounds(l: Seq<char>, i: int, close: char, ln: nat)
    requires
        0 <= i,
    ensures
        label_ok_bounds(label_spec(l, i, close, ln), i, l.len() as int),
    decreases (if close == ')' {
        1nat
    } else {
        0nat
    }),
{
    if i < l.len() {
        if close == ')' && l[i] == '[' {
            lemma_label_bounds(l, i + 1, ']', ln);
            match label_spec(l, i + 1, ']', ln) {
                Ok((lab, j0)) => {
                    lemma_skip_ws(l, j0);
                },
                Err(_) => {},
            }
        } else if l[i] == '"' {
            lemma_quoted_bounds(l, close, i + 1, Seq::empty(), ln);
        } else {
            lemma_find_char_from(l, close, i);
        }
    }
}

pub open spec fn label_read_view(r: Result<(Vec<char>, usize), Vec<char>>) -> LabelRead {
    match r {
        Ok((v, j)) => Ok((v@, j as int)),
        Err(m) => Err(m@),
    }
}

fn quoted_label_exec(l: &Vec<char>, close: char, i: usize, ln: usize) -> (r: Result<(Vec<char>, usize), Vec<char>>)
    ensures
        label_read_view(r) == quoted_label_scan(l@, close, i as int, Seq::empty(), ln as nat),
{
    let mut buf: Vec<char> = Vec::new();
    let mut k = i;
    while k < l.len()
        invariant
            i <= k,
            quoted_label_scan(l@, close, i as int, Seq::empty(), ln as nat) == quoted_label_scan(
                l@,
                close,
                k as int,
                buf@,
                ln as nat,
            ),
        decreases l.len() - k,
    {
        let ch = l[k];
        if ch == '"' {
            let j = skip_ws_exec(l, k + 1);
            proof {
                lemma_skip_ws(l@, k + 1);
            }
            if j >= l.len() || l[j] != close {
                return Err(line_error_exec(ln, &chars_of("Unclosed node label")));
            }
            return Ok((buf, j + 1));
        }
        if ch == '\\' && k + 1 < l.len() {
            buf.push(l[k + 1]);
            k += 2;
            continue;
        }
        buf.push(ch);
        k += 1;
    }
    Err(line_error_exec(ln, &chars_of("Unclosed quoted label")))
}

fn parse_label(l: &Vec<char>, i: usize, close: char, ln: usize) -> (r: Result<
    (Vec<char>, usize),
    Vec<char>,
>)
    ensures
        label_read_view(r) == label_spec(l@, i as int, close, ln as nat),
        label_ok_bounds(label_spec(l@, i as int, close, ln as nat), i as int, l@.len() as int),
    decreases (if close == ')' {
        1nat
    } else {
        0nat
    }),
{
    proof {
        lemma_label_bounds(l@, i as int, close, ln as nat);
    }
    if i >= l.len() {
        return Err(line_error_exec(ln, &chars_of("Expected node label")));
    }
    if close == ')' && l[i] == '[' {
        proof {
            lemma_label_bounds(l@, i + 1, ']', ln as nat);
        }
        match parse_label(l, i + 1, ']', ln) {
            Err(m) => {
                return Err(m);
            },
            Ok((lab, j0)) => {
                let j = skip_ws_exec(l, j0);
                proof {
                    lemma_skip_ws(l@, j0 as int);
                }
                if j >= l.len() || l[j] != ')' {
                    return Err(line_error_exec(ln, &chars_of("Unclosed node label")));
                }
                return Ok((lab, j + 1));
            },
        }
    }
    if l[i] == '"' {
        return quoted_label_exec(l, close, i + 1, ln);
    }
    match find_char_exec(l, close, i) {
        None => Err(line_error_exec(ln, &chars_of("Unclosed node label"))),
        Some(e) => {
            let lab = trim_vec(&sub_vec(l, i, e));
            if lab.len() == 0 {
                Err(line_error_exec(ln, &chars_of("Node label cannot be empty")))
            } else {
                Ok((lab, e + 1))
            }
        },
    }
}

/// A node as written on a line: its id and, when a shape is given, its label.
pub type NodeSpecV = (Seq<char>, Option<Seq<char>>);

pub open spec fn node_token_pattern() -> Seq<char> {
    "^[A-Za-z0-9_][A-Za-z0-9_-]*"@
}

pub open spec fn close_for(c: char) -> char {
    if c == '[' {
        ']'
    } else if c == '(' {
        ')'
    } else {
        '}'
    }
}

/// `parse_node_token` at `idx`: a node id, then optionally a label in `[...]`,
/// `(...)` or `{...}`. `Err(None)` where reading it would fail outright (the
/// pattern not compiling, or offsets outside the line).
pub open spec fn node_token_spec(l: Seq<char>, idx: int, ln: nat) -> Result<(NodeSpecV, int), Option<Seq<char>>> {
    if idx < 0 || idx > l.len() {
        Err(None)
    } else {
        let rest = l.subrange(idx, l.len() as int);
        match regex_find_result(node_token_pattern(), rest) {
            None => Err(None),
            Some(None) => Err(Some(line_error_spec(ln, "Expected node id"@))),
            Some(Some((s, e))) => if !(s <= e <= rest.len()) {
                Err(None)
            } else {
                let id = rest.subrange(s as int, e as int);
                let j = idx + e;
                if j >= l.len() || !(l[j] == '[' || l[j] == '(' || l[j] == '{') {
                    Ok(((id, None), j))
                } else {
                    match label_spec(l, j + 1, close_for(l[j]), ln) {
                        Err(m) => Err(Some(m)),
                        Ok((lab, k)) => Ok(((id, Some(lab)), k)),
                    }
                }
            },
        }
    }
}

pub open spec fn tok_view(sp: (Vec<char>, Option<Vec<char>>)) -> NodeSpecV {
    (sp.0@, match sp.1 {
        Some(l) => Some(l@),
        None => None,
    })
}

pub open spec fn opt_err_view(e: Option<Vec<char>>) -> Option<Seq<char>> {
    match e {
        Some(v) => Some(v@),
        None => None,
    }
}

fn read_node_token(l: &Vec<char>, idx: usize, ln: usize) -> (r: Result<
    ((Vec<char>, Option<Vec<char>>), usize),
    Option<Vec<char>>,
>)
    requires
        ascii(l@),
    ensures
        match node_token_spec(l@, idx as int, ln as nat) {
            Ok((sp, j)) => r is Ok && tok_view(r->Ok_0.0) == sp && r->Ok_0.1 == j,
            Err(e) => r is Err && opt_err_view(r->Err_0) == e,
        },
{
    if idx > l.len() {
        return Err(None);
    }
    let rest = sub_vec(l, idx, l.len());
    assert(ascii(rest@));
    let rs = string_of(&rest);
    match regex_find("^[A-Za-z0-9_][A-Za-z0-9_-]*", rs.as_str()) {
        None => Err(None),
        Some(None) => Err(Some(line_error_exec(ln, &chars_of("Expected node id")))),
        Some(Some((s, e))) => {
            let id = sub_vec(&rest, s, e);
            let j = idx + e;
            if j >= l.len() || !(l[j] == '[' || l[j] == '(' || l[j] == '{') {
                return Ok(((id, None), j));
            }
            let open = l[j];
            let close = if open == '[' {
                ']'
            } else if open == '(' {
                ')'
            } else {
                '}'
            };
            match parse_label(l, j + 1, close, ln) {
                Err(m) => Err(Some(m)),
                Ok((lab, k)) => Ok(((id, Some(lab)), k)),
            }
        },
    }
}

pub open spec fn pipe_pattern() -> Seq<char> {
    "\\|([^|]*)\\|"@
}

pub open spec fn edge_label_pattern() -> Seq<char> {
    "--\\s*([^>-][^>]*)\\s*-->"@
}

pub open spec fn nonempty_opt(s: Seq<char>) -> Option<Seq<char>> {
    if s.len() == 0 {
        None
    } else {
        Some(s)
    }
}

/// `normalize_edge_line`: a `|label|` is cut out of the line, or else a
/// `-- label -->` becomes `-->`; the label (trimmed, if not empty) is kept.
/// `None` where reading it would fail outright.
pub open spec fn normalize_edge_spec(l: Seq<char>) -> Option<(Seq<char>, Option<Seq<char>>)> {
    match regex_find_result(pipe_pattern(), l) {
        None => None,
        Some(Some((s, e))) => if !(s + 2 <= e && e <= l.len()) {
            None
        } else {
            let inner = trim(l.subrange((s + 1) as int, (e - 1) as int));
            let n1 = l.subrange(0, s as int) + l.subrange(e as int, l.len() as int);
            match nonempty_opt(inner) {
                Some(x) => Some((n1, Some(x))),
                None => normalize_edge_second(n1),
            }
        },
        Some(None) => normalize_edge_second(l),
    }
}

pub open spec fn normalize_edge_second(n1: Seq<char>) -> Option<(Seq<char>, Option<Seq<char>>)> {
    match regex_find_result(edge_label_pattern(), n1) {
        None => None,
        Some(None) => Some((n1, None)),
        Some(Some((s, e))) => if !(s + 5 <= e && e <= n1.len()) {
            None
        } else {
            let inner = trim(n1.subrange((s + 2) as int, (e - 3) as int));
            Some(
                (
                    n1.subrange(0, s as int) + "-->"@ + n1.subrange(e as int, n1.len() as int),
                    nonempty_opt(inner),
                ),
            )
        },
    }
}

fn nonempty_opt_exec(v: Vec<char>) -> (r: Option<Vec<char>>)
    ensures
        match r {
            Some(x) => nonempty_opt(v@) == Some(x@),
            None => nonempty_opt(v@) is None,
        },
{
    if v.len() == 0 {
        None
    } else {
        Some(v)
    }
}

pub open spec fn norm_view(r: Option<(Vec<char>, Option<Vec<char>>)>) -> Option<(Seq<char>, Option<Seq<char>>)> {
    match r {
        None => None,
        Some((n, l)) => Some((n@, opt_err_view(l))),
    }
}

fn normalize_edge_second_exec(n1: Vec<char>) -> (r: Option<(Vec<char>, Option<Vec<char>>)>)
    requires
        ascii(n1@),
    ensures
        norm_view(r) == normalize_edge_second(n1@),
        r matches Some((n, _)) ==> ascii(n@),
{
    let ns = string_of(&n1);
    match regex_find("--\\s*([^>-][^>]*)\\s*-->", ns.as_str()) {
        None => None,
        Some(None) => Some((n1, None)),
        Some(Some((s, e))) => {
            if !(s <= e && e - s >= 5 && e <= n1.len()) {
                return None;
            }
            let inner = trim_vec(&sub_vec(&n1, s + 2, e - 3));
            let mut out = sub_vec(&n1, 0, s);
            append_vec(&mut out, &chars_of("-->"));
            append_vec(&mut out, &sub_vec(&n1, e, n1.len()));
            proof {
                reveal_strlit("-->");
                assert(ascii(out@));
            }
            Some((out, nonempty_opt_exec(inner)))
        },
    }
}

fn normalize_edge_line(l: &Vec<char>) -> (r: Option<(Vec<char>, Option<Vec<char>>)>)
    requires
        ascii(l@),
    ensures
        norm_view(r) == normalize_edge_spec(l@),
        r matches Some((n, _)) ==> ascii(n@),
{
    let ls = string_of(l);
    match regex_find("\\|([^|]*)\\|", ls.as_str()) {
        None => None,
        Some(None) => {
            assert(l@.subrange(0, l@.len() as int) =~= l@);
            normalize_edge_second_exec(sub_vec(l, 0, l.len()))
        },
        Some(Some((s, e))) => {
            if !(s <= e && e - s >= 2 && e <= l.len()) {
                return None;
            }
            let inner = trim_vec(&sub_vec(l, s + 1, e - 1));
            let mut n1 = sub_vec(l, 0, s);
            append_vec(&mut n1, &sub_vec(l, e, l.len()));
            assert(ascii(n1@));
            match nonempty_opt_exec(inner) {
                Some(x) => Some((n1, Some(x))),
                None => normalize_edge_second_exec(n1),
            }
        },
    }
}

/// Number of `>` characters in `s`.
pub open spec fn gt_count(s: Seq<char>) -> nat
    decreases s.len(),
{
    if s.len() == 0 {
        0
    } else {
        gt_count(s.drop_last()) + (if s.last() == '>' {
            1nat
        } else {
            0nat
        })
    }
}

proof fn lemma_gt_count_add(a: Seq<char>, b: Seq<char>)
    ensures
        gt_count(a + b) == gt_count(a) + gt_count(b),
    decreases b.len(),
{
    if b.len() == 0 {
        assert(a + b =~= a);
    } else {
        assert((a + b).drop_last() =~= a + b.drop_last());
        lemma_gt_count_add(a, b.drop_last());
    }
}

pub proof fn lemma_gt_count_bounds(s: Seq<char>)
    ensures
        gt_count(s) <= s.len(),
        !s.contains('>') ==> gt_count(s) == 0,
    decreases s.len(),
{
    if s.len() > 0 {
        lemma_gt_count_bounds(s.drop_last());
        if !s.contains('>') {
            assert forall|i: int| 0 <= i < s.drop_last().len() implies s.drop_last()[i] != '>' by {
                assert(s[i] == s.drop_last()[i]);
            }
            assert(s[s.len() - 1] != '>');
        }
    }
}

/// An edge as written on a line: source, label, destination.
pub type EdgeSpecV = (NodeSpecV, Option<Seq<char>>, NodeSpecV);

pub open spec fn arrow_pattern() -> Seq<char> {
    "[-.=]+>"@
}

/// `normalize_edge_line` leaves the line as it is, or shortens it.
pub proof fn lemma_normalize_shrinks(l: Seq<char>)
    ensures
        normalize_edge_spec(l) matches Some((n, _)) ==> (n == l || n.len() < l.len()),
{
    reveal_strlit("-->");
}

/// The line tried again after its first `---` (past the source) became `-->`.
pub open spec fn retry_line(n: Seq<char>, a: int, p: int) -> Seq<char> {
    let rest = n.subrange(a, n.len() as int);
    n.subrange(0, a) + (rest.subrange(0, p) + "-->"@ + rest.subrange(p + 3, rest.len() as int))
}

proof fn lemma_gt_count_arrow()
    ensures
        gt_count("-->"@) == 1,
{
    reveal_strlit("-->");
    reveal_strlit("--");
    reveal_strlit("-");
    assert("-->"@.drop_last() =~= "--"@);
    assert("--"@.drop_last() =~= "-"@);
    assert("-"@.drop_last() =~= Seq::<char>::empty());
    reveal_with_fuel(gt_count, 4);
}

/// Retrying shortens the line or, keeping its length, adds a `>`.
pub proof fn lemma_retry_decreases(l: Seq<char>, n: Seq<char>, a: int, p: int)
    requires
        n == l || n.len() < l.len(),
        0 <= a <= n.len(),
        !n.subrange(a, n.len() as int).contains('>'),
        occurs_at(n.subrange(a, n.len() as int), p, "---"@),
    ensures
        retry_line(n, a, p).len() < l.len() || (retry_line(n, a, p).len() == l.len()
            && gt_count(retry_line(n, a, p)) <= retry_line(n, a, p).len()
            && retry_line(n, a, p).len() - gt_count(retry_line(n, a, p)) < l.len() - gt_count(l)),
{
    reveal_strlit("-->");
    reveal_strlit("---");
    let rest = n.subrange(a, n.len() as int);
    let pre = n.subrange(0, a);
    let x = rest.subrange(0, p);
    let y = rest.subrange(p + 3, rest.len() as int);
    let s2 = retry_line(n, a, p);
    assert(s2 =~= pre + ((x + "-->"@) + y));
    assert(s2.len() == n.len());
    lemma_gt_count_bounds(s2);
    if n == l {
        assert(n =~= pre + rest);
        lemma_gt_count_add(pre, rest);
        lemma_gt_count_bounds(rest);
        lemma_gt_count_add(pre, (x + "-->"@) + y);
        lemma_gt_count_add(x + "-->"@, y);
        lemma_gt_count_add(x, "-->"@);
        lemma_gt_count_arrow();
    }
}

/// The edge once its line has an arrow: arrows made `-->`, the destination
/// token read after the last `>`.
pub open spec fn edge_dst_spec(n: Seq<char>, src: NodeSpecV, label: Option<Seq<char>>, ln: nat) -> Option<Option<EdgeSpecV>> {
    match regex_replace_all_result(arrow_pattern(), n, "-->"@) {
        None => None,
        Some(n2) => match rfind_char(n2, '>') {
            None => Some(None),
            Some(ai) => match node_token_spec(n2, skip_ws(n2, ai + 1), ln) {
                Err(None) => None,
                Err(Some(_)) => Some(None),
                Ok((dst, _)) => Some(Some((src, label, dst))),
            },
        },
    }
}

/// `try_parse_edge_line`: the source node token, the edge label, and the
/// destination token after the last `>` (arrows written with `-`, `.` or `=`
/// are first made `-->`). A line with no `>` after its source but a `---` is
/// tried again with that `---` made `-->`. `Some(None)`: not an edge line;
/// `None`: reading it fails outright (a pattern not compiling, or an offset
/// past the end of the line).
pub open spec fn edge_line_spec(s: Seq<char>, ln: nat) -> Option<Option<EdgeSpecV>>
    decreases s.len(), s.len() - gt_count(s),
{
    match node_token_spec(s, 0, ln) {
        Err(None) => None,
        Err(Some(_)) => Some(None),
        Ok((src, _)) => match normalize_edge_spec(s) {
            None => None,
            Some((n, label)) => {
                let a = skip_ws(n, skip_ws(n, src.0.len() as int));
                if a > n.len() {
                    None
                } else {
                    let rest = n.subrange(a, n.len() as int);
                    if !rest.contains('>') {
                        match find_sub_from(rest, "---"@, 0) {
                            None => Some(None),
                            Some(p) => {
                                proof {
                                    lemma_normalize_shrinks(s);
                                    lemma_skip_ws(n, src.0.len() as int);
                                    lemma_skip_ws(n, skip_ws(n, src.0.len() as int));
                                    lemma_find_sub_from(rest, "---"@, 0);
                                    lemma_retry_decreases(s, n, a, p);
                                    lemma_gt_count_bounds(s);
                                }
                                edge_line_spec(retry_line(n, a, p), ln)
                            },
                        }
                    } else {
                        edge_dst_spec(n, src, label, ln)
                    }
                }
            },
        },
    }
}

/// A node token: its id and, when a shape was given, its label.
type NodeTok = (Vec<char>, Option<Vec<char>>);

/// An edge line: source token, label, destination token.
type EdgeSpec = (NodeTok, Option<Vec<char>>, NodeTok);

pub open spec fn edge_view(r: Option<Option<EdgeSpec>>) -> Option<Option<EdgeSpecV>> {
    match r {
        None => None,
        Some(None) => Some(None),
        Some(Some((s, lab, d))) => Some(Some((tok_view(s), opt_err_view(lab), tok_view(d)))),
    }
}

fn try_parse_edge_line(l: &Vec<char>, ln: usize) -> (r: Option<Option<EdgeSpec>>)
    requires
        ascii(l@),
    ensures
        edge_view(r) == edge_line_spec(l@, ln as nat),
    decreases l@.len(), l@.len() - gt_count(l@),
{
    let src = match read_node_token(l, 0, ln) {
        Err(None) => {
            return None;
        },
        Err(Some(_)) => {
            return Some(None);
        },
        Ok((sp, _)) => sp,
    };
    let (n, label) = match normalize_edge_line(l) {
        None => {
            return None;
        },
        Some(x) => x,
    };
    let idx = skip_ws_exec(&n, src.0.len());
    let a = skip_ws_exec(&n, idx);
    if a > n.len() {
        return None;
    }
    let rest = sub_vec(&n, a, n.len());
    if !contains_char(&rest, '>') {
        let dashes = chars_of("---");
        match find_sub_exec(&rest, &dashes) {
            None => {
                return Some(None);
            },
            Some(p) => {
                proof {
                    reveal_strlit("---");
                    reveal_strlit("-->");
                    lemma_normalize_shrinks(l@);
                    lemma_find_sub_from(rest@, "---"@, 0);
                    lemma_retry_decreases(l@, n@, a as int, p as int);
                    lemma_gt_count_bounds(l@);
                }
                let s2 = retry_exec(&n, a, p);
                return try_parse_edge_line(&s2, ln);
            },
        }
    }
    edge_dst(&n, src, label, ln)
}

fn edge_dst(n: &Vec<char>, src: NodeTok, label: Option<Vec<char>>, ln: usize) -> (r: Option<Option<EdgeSpec>>)
    requires
        ascii(n@),
    ensures
        edge_view(r) == edge_dst_spec(n@, tok_view(src), opt_err_view(label), ln as nat),
{
    let ns = string_of(n);
    let n2s = match regex_replace_all("[-.=]+>", ns.as_str(), "-->") {
        None => {
            return None;
        },
        Some(x) => x,
    };
    proof {
        reveal_strlit("-->");
        assert(ascii("-->"@));
        assert(!"-->"@.contains('$'));
    }
    let n2 = chars_of(n2s.as_str());
    match rfind_char_exec(&n2, '>') {
        None => Some(None),
        Some(ai) => {
            let ds = skip_ws_exec(&n2, ai + 1);
            match read_node_token(&n2, ds, ln) {
                Err(None) => None,
                Err(Some(_)) => Some(None),
                Ok((dst, _)) => Some(Some((src, label, dst))),
            }
        },
    }
}

fn retry_exec(n: &Vec<char>, a: usize, p: usize) -> (r: Vec<char>)
    requires
        ascii(n@),
        a <= n.len(),
        p + 3 <= n.len() - a,
    ensures
        r@ == retry_line(n@, a as int, p as int),
        ascii(r@),
{
    proof {
        reveal_strlit("-->");
    }
    let rest = sub_vec(n, a, n.len());
    let mut s2 = sub_vec(n, 0, a);
    append_vec(&mut s2, &sub_vec(&rest, 0, p));
    append_vec(&mut s2, &chars_of("-->"));
    append_vec(&mut s2, &sub_vec(&rest, p + 3, rest.len()));
    assert(s2@ =~= retry_line(n@, a as int, p as int));
    s2
}

/// A line with any `%%` comment cut off.
pub open spec fn strip_pct(l: Seq<char>) -> Seq<char> {
    match find_sub_from(l, "%%"@, 0) {
        Some(i) => l.subrange(0, i),
        None => l,
    }
}

/// `flowchart ...` or `graph ...` (in any case) opens the chart.
pub open spec fn is_header(l: Seq<char>) -> bool {
    let w = lower_seq(l);
    starts_with(w, "flowchart"@) || starts_with(w, "graph"@)
}

/// Lines that only style or group nodes, which the flow ignores.
pub open spec fn is_style_line(l: Seq<char>) -> bool {
    let w = lower_seq(l);
    ||| w == "end"@
    ||| starts_with(w, "classdef "@)
    ||| starts_with(w, "class "@)
    ||| starts_with(w, "style "@)
    ||| starts_with(w, "linkstyle "@)
    ||| starts_with(w, "click "@)
    ||| starts_with(w, "subgraph "@)
    ||| starts_with(w, "direction "@)
}

pub open spec fn style_token_pattern() -> Seq<char> {
    ":::[A-Za-z0-9_-]+"@
}

/// `try_parse_node_line`: the node token at the start of the line, if any.
pub open spec fn node_line_spec(l: Seq<char>, ln: nat) -> Option<Option<NodeSpecV>> {
    match node_token_spec(l, 0, ln) {
        Err(None) => None,
        Err(Some(_)) => Some(None),
        Ok((sp, _)) => Some(Some(sp)),
    }
}

/// `add_node`: a token with a label defines the node explicitly.
pub open spec fn add_node_spec(defs: Seq<NodeDefView>, sp: NodeSpecV, ln: nat) -> Result<
    Seq<NodeDefView>,
    Seq<char>,
> {
    define_node_spec(defs, sp.0, sp.1, sp.1 is Some, ln)
}

/// Node definitions and outgoing edges read so far.
pub type LineState = (Seq<NodeDefView>, OutView);

/// One line of the chart read into the state: comments, headers and styling
/// lines are skipped; an edge line defines both ends and records the edge; a
/// node line defines its node. `None`: reading the line fails outright.
pub open spec fn line_step(raw: Seq<char>, ln: nat, st: LineState) -> Option<Result<LineState, Seq<char>>> {
    let line = trim(strip_pct(raw));
    if line.len() == 0 || starts_with(line, "%%"@) || is_header(line) || is_style_line(line) {
        Some(Ok(st))
    } else {
        match regex_replace_all_result(style_token_pattern(), line, ""@) {
            None => None,
            Some(l2) => match edge_line_spec(l2, ln) {
                None => None,
                Some(Some((src, label, dst))) => match add_node_spec(st.0, src, ln) {
                    Err(m) => Some(Err(m)),
                    Ok(d1) => match add_node_spec(d1, dst, ln) {
                        Err(m) => Some(Err(m)),
                        Ok(d2) => Some(
                            Ok(
                                (
                                    d2,
                                    out_touch(
                                        out_add_edge(
                                            st.1,
                                            FlowEdgeView { src: src.0, dst: dst.0, label },
                                        ),
                                        dst.0,
                                    ),
                                ),
                            ),
                        ),
                    },
                },
                Some(None) => match node_line_spec(l2, ln) {
                    None => None,
                    Some(None) => Some(Ok(st)),
                    Some(Some(sp)) => match add_node_spec(st.0, sp, ln) {
                        Err(m) => Some(Err(m)),
                        Ok(d) => Some(Ok((d, st.1))),
                    },
                },
            },
        }
    }
}

/// The lines from position `k` on, read in order (line numbers start at 1).
pub open spec fn fold_lines(ls: Seq<Seq<char>>, k: int, st: LineState) -> Option<
    Result<LineState, Seq<char>>,
>
    decreases ls.len() - k,
{
    if k < 0 || k >= ls.len() {
        Some(Ok(st))
    } else {
        match line_step(ls[k], (k + 1) as nat, st) {
            None => None,
            Some(Err(m)) => Some(Err(m)),
            Some(Ok(st2)) => fold_lines(ls, k + 1, st2),
        }
    }
}

/// What parsing a Mermaid flowchart gives: `Err(Some(message))` for a
/// rejected text, `Err(None)` for a text on which reading fails outright.
pub open spec fn mermaid_spec(text: Seq<char>) -> Result<FlowView, Option<Seq<char>>> {
    match fold_lines(lines_spec(text), 0, (Seq::empty(), Seq::empty())) {
        None => Err(None),
        Some(Err(m)) => Err(Some(m)),
        Some(Ok((defs, out))) => match finish_spec(defs, out) {
            Err(m) => Err(Some(m)),
            Ok(f) => Ok(f),
        },
    }
}

/// Every line is ASCII once its `%%` comment is cut off.
pub open spec fn code_ascii(text: Seq<char>) -> bool {
    forall|i: int| 0 <= i < lines_spec(text).len() ==> ascii(strip_pct(#[trigger] lines_spec(text)[i]))
}

/// The texts the Mermaid parser takes: each line ASCII outside its comment
/// (the pattern matches give byte offsets, which the reader also uses as
/// character positions), and not one on which reading fails outright.
pub open spec fn mermaid_supported(text: Seq<char>) -> bool {
    &&& code_ascii(text)
    &&& !(mermaid_spec(text) matches Err(None))
}

fn ascii_exec(v: &Vec<char>) -> (r: bool)
    ensures
        r == ascii(v@),
{
    let t = string_of(v);
    let b = t.as_str().is_ascii();
    assert(b == ascii(v@));
    b
}

fn strip_pct_exec(l: &Vec<char>) -> (r: Vec<char>)
    ensures
        r@ == strip_pct(l@),
        ascii(l@) ==> ascii(r@),
{
    match find_sub_exec(l, &chars_of("%%")) {
        Some(i) => sub_vec(l, 0, i),
        None => {
            assert(l@.subrange(0, l@.len() as int) =~= l@);
            sub_vec(l, 0, l.len())
        },
    }
}

fn is_header_exec(l: &Vec<char>) -> (r: bool)
    ensures
        r == is_header(l@),
{
    let w = lower_vec(l);
    starts_with_exec(&w, &chars_of("flowchart")) || starts_with_exec(&w, &chars_of("graph"))
}

fn is_style_line_exec(l: &Vec<char>) -> (r: bool)
    ensures
        r == is_style_line(l@),
{
    let w = lower_vec(l);
    eq_vec(&w, &chars_of("end")) || starts_with_exec(&w, &chars_of("classdef "))
        || starts_with_exec(&w, &chars_of("class ")) || starts_with_exec(&w, &chars_of("style "))
        || starts_with_exec(&w, &chars_of("linkstyle ")) || starts_with_exec(
        &w,
        &chars_of("click "),
    ) || starts_with_exec(&w, &chars_of("subgraph ")) || starts_with_exec(
        &w,
        &chars_of("direction "),
    )
}

fn try_parse_node_line(l: &Vec<char>, ln: usize) -> (r: Option<Option<NodeTok>>)
    requires
        ascii(l@),
    ensures
        match node_line_spec(l@, ln as nat) {
            None => r is None,
            Some(None) => r == Some(None::<NodeTok>),
            Some(Some(sp)) => r matches Some(Some(x)) && tok_view(x) == sp,
        },
{
    match read_node_token(l, 0, ln) {
        Err(None) => None,
        Err(Some(_)) => Some(None),
        Ok((sp, _)) => Some(Some(sp)),
    }
}

/// `add_node`.
fn add_node(nodes: &mut Vec<NodeDef>, sp: NodeTok, ln: usize) -> (r: Result<(), Vec<char>>)
    ensures
        match add_node_spec(defs_view(old(nodes)@), tok_view(sp), ln as nat) {
            Ok(d) => r is Ok && defs_view(final(nodes)@) == d,
            Err(m) => r is Err && r->Err_0@ == m,
        },
{
    let explicit = sp.1.is_some();
    define_node(nodes, &sp.0, sp.1, explicit, ln)
}

pub open spec fn line_result_matches(
    r: Option<Result<(), Vec<char>>>,
    s: Option<Result<LineState, Seq<char>>>,
    nodes: Seq<NodeDef>,
    outgoing: Seq<FlowOutgoing>,
) -> bool {
    match s {
        None => r is None,
        Some(Err(m)) => r matches Some(Err(e)) && e@ == m,
        Some(Ok((d, o))) => r matches Some(Ok(_)) && defs_view(nodes) == d && outgoing_view(outgoing)
            == o,
    }
}

/// Reads one line of the chart (see `line_step`).
fn read_line(
    raw: &Vec<char>,
    ln: usize,
    nodes: &mut Vec<NodeDef>,
    outgoing: &mut Vec<FlowOutgoing>,
) -> (r: Option<Result<(), Vec<char>>>)
    requires
        ascii(strip_pct(raw@)),
    ensures
        line_result_matches(
            r,
            line_step(raw@, ln as nat, (defs_view(old(nodes)@), outgoing_view(old(outgoing)@))),
            final(nodes)@,
            final(outgoing)@,
        ),
{
    let line = trim_vec(&strip_pct_exec(raw));
    if line.len() == 0 || starts_with_exec(&line, &chars_of("%%")) || is_header_exec(&line)
        || is_style_line_exec(&line) {
        return Some(Ok(()));
    }
    let ls = string_of(&line);
    let l2s = match regex_replace_all(":::[A-Za-z0-9_-]+", ls.as_str(), "") {
        None => {
            return None;
        },
        Some(x) => x,
    };
    proof {
        reveal_strlit("");
        assert(ascii(""@));
        assert(!""@.contains('$'));
    }
    let l2 = chars_of(l2s.as_str());
    match try_parse_edge_line(&l2, ln) {
        None => None,
        Some(Some((src, label, dst))) => {
            let src_id = string_of(&src.0);
            let dst_id = string_of(&dst.0);
            match add_node(nodes, src, ln) {
                Err(m) => {
                    return Some(Err(m));
                },
                Ok(()) => {},
            }
            match add_node(nodes, dst, ln) {
                Err(m) => {
                    return Some(Err(m));
                },
                Ok(()) => {},
            }
            let lab = match label {
                Some(l) => Some(string_of(&l)),
                None => None,
            };
            let edge = FlowEdge { src: src_id, dst: dst_id.clone(), label: lab };
            out_add_edge_exec(outgoing, edge);
            out_touch_exec(outgoing, &dst_id);
            Some(Ok(()))
        },
        Some(None) => match try_parse_node_line(&l2, ln) {
            None => None,
            Some(None) => Some(Ok(())),
            Some(Some(sp)) => match add_node(nodes, sp, ln) {
                Err(m) => Some(Err(m)),
                Ok(()) => Some(Ok(())),
            },
        },
    }
}

/// Parses a Mermaid flowchart, or says that the text is outside what the
/// parser takes (`None`, see `mermaid_supported`).
pub fn try_parse_mermaid_flowchart(text: &str) -> (r: Option<Result<Flow, FlowError>>)
    ensures
        r is None <==> !mermaid_supported(text@),
        r matches Some(res) ==> flow_result_matches(res, mermaid_spec(text@)),
{
    let tv = chars_of(text);
    let ls = lines_exec(&tv);
    let ghost lv = vecs_view(ls@);
    let mut c: usize = 0;
    while c < ls.len()
        invariant
            c <= ls.len(),
            lv == vecs_view(ls@),
            lv == lines_spec(text@),
            forall|i: int| 0 <= i < c ==> ascii(strip_pct(#[trigger] lv[i])),
        decreases ls.len() - c,
    {
        assert(lv[c as int] == ls@[c as int]@);
        if !ascii_exec(&strip_pct_exec(&ls[c])) {
            return None;
        }
        c += 1;
    }
    let mut nodes: Vec<NodeDef> = Vec::new();
    let mut outgoing: Vec<FlowOutgoing> = Vec::new();
    proof {
        assert(defs_view(nodes@) =~= Seq::<NodeDefView>::empty());
        assert(outgoing_view(outgoing@) =~= Seq::<(Seq<char>, Seq<FlowEdgeView>)>::empty());
    }
    let mut k: usize = 0;
    while k < ls.len()
        invariant
            k <= ls.len(),
            lv == vecs_view(ls@),
            lv == lines_spec(text@),
            code_ascii(text@),
            fold_lines(lv, 0, (Seq::empty(), Seq::empty())) == fold_lines(
                lv,
                k as int,
                (defs_view(nodes@), outgoing_view(outgoing@)),
            ),
        decreases ls.len() - k,
    {
        assert(lv[k as int] == ls@[k as int]@);
        assert(ascii(strip_pct(lv[k as int])));
        let ghost st = (defs_view(nodes@), outgoing_view(outgoing@));
        match read_line(&ls[k], k + 1, &mut nodes, &mut outgoing) {
            None => {
                return None;
            },
            Some(Err(m)) => {
                assert(fold_lines(lv, k as int, st) == Some::<Result<LineState, Seq<char>>>(Err(m@)));
                return Some(Err(FlowError::new(string_of(&m))));
            },
            Some(Ok(())) => {},
        }
        k += 1;
    }
    Some(finish_flow(&nodes, outgoing))
}

/// Parses a Mermaid flowchart into a flow.
pub fn parse_mermaid_flowchart(text: &str) -> (r: Result<Flow, FlowError>)
    requires
        mermaid_supported(text@),
    ensures
        flow_result_matches(r, mermaid_spec(text@)),
{
    match try_parse_mermaid_flowchart(text) {
        Some(r) => r,
        None => Err(FlowError::new(String::new())),
    }
}

/// A node as written in a Mermaid line: its id and, when a shape was given,
/// its label.
#[derive(Clone, Debug)]
pub struct NodeSpec {
    pub node_id: String,
    pub label: Option<String>,
}

impl View for NodeSpec {
    type V = NodeSpecV;

    open spec fn view(&self) -> NodeSpecV {
        (self.node_id@, opt_view(self.label))
    }
}

/// The texts on which `parse_node_token` does not fail outright.
pub open spec fn node_token_supported(line: Seq<char>, idx: int, line_no: nat) -> bool {
    &&& ascii(line)
    &&& !(node_token_spec(line, idx, line_no) matches Err(None))
}

pub open spec fn node_token_matches(r: Result<(NodeSpec, usize), FlowError>, s: Result<(NodeSpecV, int), Option<Seq<char>>>) -> bool {
    match s {
        Ok((sp, j)) => r is Ok && r->Ok_0.0@ == sp && r->Ok_0.1 == j,
        Err(Some(m)) => r is Err && r->Err_0.message@ == m,
        Err(None) => false,
    }
}

/// Reads a node token at `idx` (see `node_token_spec`).
pub fn parse_node_token(line: &str, idx: usize, line_no: usize) -> (r: Result<(NodeSpec, usize), FlowError>)
    requires
        node_token_supported(line@, idx as int, line_no as nat),
    ensures
        node_token_matches(r, node_token_spec(line@, idx as int, line_no as nat)),
{
    let v = chars_of(line);
    match read_node_token(&v, idx, line_no) {
        Ok(((id, lab), j)) => {
            let label = match lab {
                Some(l) => Some(string_of(&l)),
                None => None,
            };
            Ok((NodeSpec { node_id: string_of(&id), label }, j))
        },
        Err(Some(m)) => Err(FlowError::new(string_of(&m))),
        Err(None) => Err(FlowError::new(String::new())),
    }
}

/// Reads a node token at `idx`, or says that the input is outside what the
/// reader takes (`None`, see `node_token_supported`).
pub fn try_parse_node_token(line: &str, idx: usize, line_no: usize) -> (r: Option<
    Result<(NodeSpec, usize), FlowError>,
>)
    ensures
        r is None <==> !node_token_supported(line@, idx as int, line_no as nat),
        r matches Some(res) ==> node_token_matches(res, node_token_spec(line@, idx as int, line_no as nat)),
{
    if !line.is_ascii() {
        return None;
    }
    let v = chars_of(line);
    match read_node_token(&v, idx, line_no) {
        Err(None) => None,
        _ => Some(parse_node_token(line, idx, line_no)),
    }
}

} // verus!
