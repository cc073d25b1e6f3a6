//! Skill flow diagrams: nodes, edges, the flow built from them, and the
//! validation every parsed flow goes through.
pub mod d2;
pub mod mermaid;

use crate::text::{dec, dec_exec, eq_vec, vecs_view, append_vec, chars_of, join, join_exec, lower_seq, lower_vec, string_of, sub_vec, trim, trim_vec};
use vstd::prelude::*;

verus! {

/// Kind of a flow node.
#[derive(Clone, Copy, Debug, PartialEq, Eq, Structural)]
pub enum FlowNodeKind {
    Begin,
    End,
    Task,
    Decision,
}

impl FlowNodeKind {
    /// The kind's display name.
    pub open spec fn name_spec(self) -> Seq<char> {
        match self {
            FlowNodeKind::Begin => "begin"@,
            FlowNodeKind::End => "end"@,
            FlowNodeKind::Task => "task"@,
            FlowNodeKind::Decision => "decision"@,
        }
    }

    /// The kind's display name (what `Display` prints).
    pub fn as_string(&self) -> (r: String)
        ensures
            r@ == self.name_spec(),
    {
        match self {
            FlowNodeKind::Begin => String::from_str("begin"),
            FlowNodeKind::End => String::from_str("end"),
            FlowNodeKind::Task => String::from_str("task"),
            FlowNodeKind::Decision => String::from_str("decision"),
        }
    }
}

/// A node within a skill flow.
#[derive(Clone, Debug)]
pub struct FlowNode {
    pub id: String,
    pub label: String,
    pub kind: FlowNodeKind,
}

pub struct FlowNodeView {
    pub id: Seq<char>,
    pub label: Seq<char>,
    pub kind: FlowNodeKind,
}

impl View for FlowNode {
    type V = FlowNodeView;

    open spec fn view(&self) -> FlowNodeView {
        FlowNodeView { id: self.id@, label: self.label@, kind: self.kind }
    }
}

impl FlowNode {
    /// A copy with the same id, label and kind.
    pub fn copy(&self) -> (r: FlowNode)
        ensures
            r@ == self@,
    {
        FlowNode { id: self.id.clone(), label: self.label.clone(), kind: self.kind }
    }

    /// Two nodes are equal when id, label and kind agree.
    pub fn same_as(&self, other: &FlowNode) -> (r: bool)
        ensures
            r == (self@ == other@),
    {
        self.id == other.id && self.label == other.label && self.kind == other.kind
    }
}

/// An edge connecting two flow nodes.
#[derive(Clone, Debug)]
pub struct FlowEdge {
    pub src: String,
    pub dst: String,
    pub label: Option<String>,
}

pub struct FlowEdgeView {
    pub src: Seq<char>,
    pub dst: Seq<char>,
    pub label: Option<Seq<char>>,
}

pub open spec fn opt_view(o: Option<String>) -> Option<Seq<char>> {
    match o {
        Some(s) => Some(s@),
        None => None,
    }
}

impl View for FlowEdge {
    type V = FlowEdgeView;

    open spec fn view(&self) -> FlowEdgeView {
        FlowEdgeView { src: self.src@, dst: self.dst@, label: opt_view(self.label) }
    }
}

pub fn copy_opt_string(o: &Option<String>) -> (r: Option<String>)
    ensures
        opt_view(r) == opt_view(*o),
{
    match o {
        Some(s) => Some(s.clone()),
        None => None,
    }
}

impl FlowEdge {
    pub fn copy(&self) -> (r: FlowEdge)
        ensures
            r@ == self@,
    {
        FlowEdge { src: self.src.clone(), dst: self.dst.clone(), label: copy_opt_string(&self.label) }
    }
}

/// The edges that leave one node, keyed by that node's id.
#[derive(Clone, Debug)]
pub struct FlowOutgoing {
    pub id: String,
    pub edges: Vec<FlowEdge>,
}

pub open spec fn edges_view(edges: Seq<FlowEdge>) -> Seq<FlowEdgeView> {
    edges.map_values(|e: FlowEdge| e@)
}

impl View for FlowOutgoing {
    type V = (Seq<char>, Seq<FlowEdgeView>);

    open spec fn view(&self) -> (Seq<char>, Seq<FlowEdgeView>) {
        (self.id@, edges_view(self.edges@))
    }
}

/// Parsed skill flow diagram. Nodes keep the order in which they were first
/// defined; `outgoing` holds one entry per node id.
#[derive(Clone, Debug)]
pub struct Flow {
    pub nodes: Vec<FlowNode>,
    pub outgoing: Vec<FlowOutgoing>,
    pub begin_id: Option<String>,
    pub end_id: Option<String>,
}

pub struct FlowView {
    pub nodes: Seq<FlowNodeView>,
    pub outgoing: Seq<(Seq<char>, Seq<FlowEdgeView>)>,
    pub begin_id: Option<Seq<char>>,
    pub end_id: Option<Seq<char>>,
}

pub open spec fn nodes_view(nodes: Seq<FlowNode>) -> Seq<FlowNodeView> {
    nodes.map_values(|n: FlowNode| n@)
}

pub open spec fn outgoing_view(out: Seq<FlowOutgoing>) -> Seq<(Seq<char>, Seq<FlowEdgeView>)> {
    out.map_values(|o: FlowOutgoing| o@)
}

impl View for Flow {
    type V = FlowView;

    open spec fn view(&self) -> FlowView {
        FlowView {
            nodes: nodes_view(self.nodes@),
            outgoing: outgoing_view(self.outgoing@),
            begin_id: opt_view(self.begin_id),
            end_id: opt_view(self.end_id),
        }
    }
}

/// Position of the first node with the given id, searching from `i`.
pub open spec fn find_node_from(nodes: Seq<FlowNodeView>, id: Seq<char>, i: int) -> Option<int>
    decreases nodes.len() - i,
{
    if i < 0 || i >= nodes.len() {
        None
    } else if nodes[i].id == id {
        Some(i)
    } else {
        find_node_from(nodes, id, i + 1)
    }
}

/// Position of the first node with the given id.
pub open spec fn find_node(nodes: Seq<FlowNodeView>, id: Seq<char>) -> Option<int> {
    find_node_from(nodes, id, 0)
}

pub proof fn lemma_find_node_from(nodes: Seq<FlowNodeView>, id: Seq<char>, i: int)
    requires
        0 <= i,
    ensures
        match find_node_from(nodes, id, i) {
            Some(k) => i <= k < nodes.len() && nodes[k].id == id && forall|j: int|
                i <= j < k ==> #[trigger] nodes[j].id != id,
            None => forall|j: int| i <= j < nodes.len() ==> #[trigger] nodes[j].id != id,
        },
    decreases nodes.len() - i,
{
    if i < nodes.len() && nodes[i].id != id {
        lemma_find_node_from(nodes, id, i + 1);
    }
}

impl Flow {
    /// The node with the given id, if any.
    pub fn node(&self, id: &str) -> (r: Option<&FlowNode>)
        ensures
            match find_node(self@.nodes, id@) {
                Some(k) => r is Some && r->0@ == self@.nodes[k],
                None => r is None,
            },
    {
        proof {
            lemma_find_node_from(self@.nodes, id@, 0);
        }
        let key = String::from_str(id);
        let mut i: usize = 0;
        while i < self.nodes.len()
            invariant
                i <= self.nodes.len(),
                self@.nodes.len() == self.nodes.len(),
                key@ == id@,
                forall|j: int| 0 <= j < i ==> self@.nodes[j].id != id@,
            decreases self.nodes.len() - i,
        {
            if self.nodes[i].id == key {
                assert(self@.nodes[i as int] == self.nodes@[i as int]@);
                assert(self@.nodes[i as int].id == id@);
                proof {
                    lemma_find_node_from(self@.nodes, id@, 0);
                }
                assert(find_node(self@.nodes, id@) == Some(i as int));
                return Some(&self.nodes[i]);
            }
            i += 1;
        }
        None
    }
}

/// Error during flow parsing.
#[derive(Clone, Debug)]
pub struct FlowError {
    pub message: String,
}

impl FlowError {
    pub fn new(message: String) -> (r: FlowError)
        ensures
            r.message@ == message@,
    {
        FlowError { message }
    }
}


/// `Line {line_no}: {message}`.
pub open spec fn line_error_spec(line_no: nat, message: Seq<char>) -> Seq<char> {
    "Line "@ + dec(line_no) + ": "@ + message
}

pub fn line_error_exec(line_no: usize, message: &Vec<char>) -> (r: Vec<char>)
    ensures
        r@ == line_error_spec(line_no as nat, message@),
{
    let mut r = chars_of("Line ");
    let d = dec_exec(line_no);
    append_vec(&mut r, &d);
    let sep = chars_of(": ");
    append_vec(&mut r, &sep);
    append_vec(&mut r, message);
    r
}


/// A node definition seen while parsing, with whether its label was explicit.
pub struct NodeDef {
    pub node: FlowNode,
    pub explicit: bool,
}

pub struct NodeDefView {
    pub node: FlowNodeView,
    pub explicit: bool,
}

impl View for NodeDef {
    type V = NodeDefView;

    open spec fn view(&self) -> NodeDefView {
        NodeDefView { node: self.node@, explicit: self.explicit }
    }
}

pub open spec fn defs_view(defs: Seq<NodeDef>) -> Seq<NodeDefView> {
    defs.map_values(|d: NodeDef| d@)
}

pub open spec fn def_nodes(defs: Seq<NodeDefView>) -> Seq<FlowNodeView> {
    defs.map_values(|d: NodeDefView| d.node)
}

/// The kind a label gives a node: `begin` and `end` (after trimming and
/// lower-casing) mark the two ends of the flow, anything else is a task.
pub open spec fn kind_for(label: Seq<char>) -> FlowNodeKind {
    let n = lower_seq(trim(label));
    if n == "begin"@ {
        FlowNodeKind::Begin
    } else if n == "end"@ {
        FlowNodeKind::End
    } else {
        FlowNodeKind::Task
    }
}

/// A node's kind depends on its label only up to surrounding whitespace and
/// letter case: `Begin`, ` begin ` and `BEGIN` all make a begin node.
pub proof fn lemma_kind_ignores_case_and_spacing(a: Seq<char>, b: Seq<char>)
    requires
        lower_seq(trim(a)) == lower_seq(trim(b)),
    ensures
        kind_for(a) == kind_for(b),
{
}

/// Exactly the labels that read `begin`, ignoring surrounding whitespace and
/// letter case, make a begin node; exactly those that read `end` make an end
/// node; every other label makes a task.
pub proof fn lemma_kind_of_label(a: Seq<char>)
    ensures
        (kind_for(a) is Begin) <==> lower_seq(trim(a)) == "begin"@,
        (kind_for(a) is End) <==> lower_seq(trim(a)) == "end"@,
        (kind_for(a) is Task) <==> (lower_seq(trim(a)) != "begin"@ && lower_seq(trim(a)) != "end"@),
{
    reveal_strlit("begin");
    reveal_strlit("end");
    assert("begin"@.len() != "end"@.len());
}

/// Adding a node definition: a node is given by its id and label (the id
/// when no label is given). A repeated definition is accepted when it is
/// identical, when it is implicit and the earlier one explicit (the earlier
/// stays), or when it is explicit and the earlier one implicit (it replaces
/// the earlier); any other repetition is a conflict.
pub open spec fn define_node_spec(
    defs: Seq<NodeDefView>,
    id: Seq<char>,
    label: Option<Seq<char>>,
    explicit: bool,
    line_no: nat,
) -> Result<Seq<NodeDefView>, Seq<char>> {
    let lab = label_or(label, id);
    if lower_seq(trim(lab)).len() == 0 {
        Err(line_error_spec(line_no, "Node label cannot be empty"@))
    } else {
        let node = FlowNodeView { id, label: lab, kind: kind_for(lab) };
        match find_node(def_nodes(defs), id) {
            Some(k) => {
                let e = defs[k];
                if e.node == node || (!explicit && e.explicit) {
                    Ok(defs)
                } else if explicit && !e.explicit {
                    Ok(defs.update(k, NodeDefView { node, explicit: true }))
                } else {
                    Err(
                        line_error_spec(
                            line_no,
                            "Conflicting definition for node \""@ + id + "\""@,
                        ),
                    )
                }
            },
            None => Ok(defs.push(NodeDefView { node, explicit })),
        }
    }
}

pub fn kind_for_exec(label: &Vec<char>) -> (r: FlowNodeKind)
    ensures
        r == kind_for(label@),
{
    let t = trim_vec(label);
    let n = lower_vec(&t);
    if eq_vec(&n, &chars_of("begin")) {
        FlowNodeKind::Begin
    } else if eq_vec(&n, &chars_of("end")) {
        FlowNodeKind::End
    } else {
        FlowNodeKind::Task
    }
}

pub open spec fn opt_vec_view(o: Option<Vec<char>>) -> Option<Seq<char>> {
    match o {
        Some(v) => Some(v@),
        None => None,
    }
}

/// The given label, or the id when there is none.
pub open spec fn label_or(label: Option<Seq<char>>, id: Seq<char>) -> Seq<char> {
    match label {
        Some(l) => l,
        None => id,
    }
}

/// Records a node definition (see `define_node_spec`).
#[verifier::loop_isolation(false)]
pub fn define_node(
    defs: &mut Vec<NodeDef>,
    id: &Vec<char>,
    label: Option<Vec<char>>,
    explicit: bool,
    line_no: usize,
) -> (r: Result<(), Vec<char>>)
    ensures
        match define_node_spec(
            defs_view(old(defs)@),
            id@,
            opt_vec_view(label),
            explicit,
            line_no as nat,
        ) {
            Ok(d) => r is Ok && defs_view(final(defs)@) == d,
            Err(m) => r is Err && r->Err_0@ == m && final(defs)@ == old(defs)@,
        },
{
    let ghost lv = opt_vec_view(label);
    let lab = match label {
        Some(l) => l,
        None => sub_vec(id, 0, id.len()),
    };
    assert(lab@ == label_or(lv, id@));
    assert(id@.subrange(0, id@.len() as int) =~= id@);
    let t = trim_vec(&lab);
    let n = lower_vec(&t);
    if n.len() == 0 {
        return Err(line_error_exec(line_no, &chars_of("Node label cannot be empty")));
    }
    let kind = kind_for_exec(&lab);
    let node = FlowNode { id: string_of(id), label: string_of(&lab), kind };
    let ghost dv = defs_view(defs@);
    let mut i: usize = 0;
    while i < defs.len()
        invariant
            i <= defs.len(),
            dv == defs_view(defs@),
            dv == defs_view(old(defs)@),
            defs@ == old(defs)@,
            lab@ == label_or(lv, id@),
            lower_seq(trim(lab@)).len() != 0,
            node@ == (FlowNodeView { id: id@, label: lab@, kind: kind_for(lab@) }),
            forall|j: int| 0 <= j < i ==> def_nodes(dv)[j].id != id@,
        decreases defs.len() - i,
    {
        assert(def_nodes(dv).len() == defs@.len());
        assert(def_nodes(dv)[i as int] == defs@[i as int].node@);
        if eq_vec(&chars_of_string(&defs[i].node.id), id) {
            assert(def_nodes(dv)[i as int].id == id@);
            proof {
                lemma_find_node_from(def_nodes(dv), id@, 0);
                assert(find_node(def_nodes(dv), id@) == Some(i as int));
            }
            let same = defs[i].node.same_as(&node);
            let ex = defs[i].explicit;
            if same || (!explicit && ex) {
                return Ok(());
            } else if explicit && !ex {
                let ghost before = defs@;
                defs.set(i, NodeDef { node, explicit: true });
                assert(defs_view(defs@) =~= dv.update(
                    i as int,
                    NodeDefView { node: node@, explicit: true },
                ));
                return Ok(());
            } else {
                let mut msg = chars_of("Conflicting definition for node \"");
                append_vec(&mut msg, id);
                append_vec(&mut msg, &chars_of("\""));
                return Err(line_error_exec(line_no, &msg));
            }
        }
        i += 1;
    }
    proof {
        lemma_find_node_from(def_nodes(dv), id@, 0);
    }
    defs.push(NodeDef { node, explicit });
    assert(defs_view(defs@) =~= dv.push(NodeDefView { node: node@, explicit }));
    Ok(())
}

/// The characters of a `String`.
pub fn chars_of_string(s: &String) -> (v: Vec<char>)
    ensures
        v@ == s@,
{
    chars_of(s.as_str())
}

/// Position of the first outgoing entry with the given key, searching from `i`.
pub open spec fn find_out_from(
    out: Seq<(Seq<char>, Seq<FlowEdgeView>)>,
    key: Seq<char>,
    i: int,
) -> Option<int>
    decreases out.len() - i,
{
    if i < 0 || i >= out.len() {
        None
    } else if out[i].0 == key {
        Some(i)
    } else {
        find_out_from(out, key, i + 1)
    }
}

pub open spec fn find_out(out: Seq<(Seq<char>, Seq<FlowEdgeView>)>, key: Seq<char>) -> Option<
    int,
> {
    find_out_from(out, key, 0)
}

pub proof fn lemma_find_out_from(out: Seq<(Seq<char>, Seq<FlowEdgeView>)>, key: Seq<char>, i: int)
    requires
        0 <= i,
    ensures
        match find_out_from(out, key, i) {
            Some(k) => i <= k < out.len() && out[k].0 == key && forall|j: int|
                i <= j < k ==> #[trigger] out[j].0 != key,
            None => forall|j: int| i <= j < out.len() ==> #[trigger] out[j].0 != key,
        },
    decreases out.len() - i,
{
    if i < out.len() && out[i].0 != key {
        lemma_find_out_from(out, key, i + 1);
    }
}

/// The edges leaving `a` (none when `a` has no entry).
pub open spec fn succ(out: Seq<(Seq<char>, Seq<FlowEdgeView>)>, a: Seq<char>) -> Seq<FlowEdgeView> {
    match find_out(out, a) {
        Some(k) => out[k].1,
        None => Seq::empty(),
    }
}

/// Appends an edge to the entry of its source, creating the entry if needed.
pub open spec fn out_add_edge(
    out: Seq<(Seq<char>, Seq<FlowEdgeView>)>,
    e: FlowEdgeView,
) -> Seq<(Seq<char>, Seq<FlowEdgeView>)> {
    match find_out(out, e.src) {
        Some(k) => out.update(k, (out[k].0, out[k].1.push(e))),
        None => out.push((e.src, seq![e])),
    }
}

/// The outgoing edges of `e.src` hold the edge `e`.
pub open spec fn has_edge(out: Seq<(Seq<char>, Seq<FlowEdgeView>)>, e: FlowEdgeView) -> bool {
    exists|j: int| 0 <= j < out.len() && out[j].0 == e.src && #[trigger] out[j].1.contains(e)
}

/// Adding an edge records it among its source's edges and keeps every edge
/// recorded before.
pub proof fn lemma_add_edge_records(out: Seq<(Seq<char>, Seq<FlowEdgeView>)>, e: FlowEdgeView, x: FlowEdgeView)
    ensures
        has_edge(out_add_edge(out, e), e),
        has_edge(out, x) ==> has_edge(out_add_edge(out, e), x),
{
    lemma_find_out_from(out, e.src, 0);
    let r = out_add_edge(out, e);
    match find_out(out, e.src) {
        Some(k) => {
            assert(r[k].1 == out[k].1.push(e));
            assert(r[k].1[out[k].1.len() as int] == e);
            assert(r[k].1.contains(e));
            if has_edge(out, x) {
                let j = choose|j: int| 0 <= j < out.len() && out[j].0 == x.src && #[trigger] out[j].1.contains(x);
                let i = choose|i: int| 0 <= i < out[j].1.len() && out[j].1[i] == x;
                if j == k {
                    assert(r[k].1[i] == x);
                    assert(r[k].1.contains(x));
                } else {
                    assert(r[j] == out[j]);
                }
            }
        },
        None => {
            assert(r[out.len() as int].1[0] == e);
            assert(r[out.len() as int].1.contains(e));
            if has_edge(out, x) {
                let j = choose|j: int| 0 <= j < out.len() && out[j].0 == x.src && #[trigger] out[j].1.contains(x);
                assert(r[j] == out[j]);
            }
        },
    }
}

/// Giving a node an entry keeps every edge recorded.
pub proof fn lemma_touch_keeps_edges(out: Seq<(Seq<char>, Seq<FlowEdgeView>)>, key: Seq<char>, x: FlowEdgeView)
    ensures
        has_edge(out, x) ==> has_edge(out_touch(out, key), x),
{
    if has_edge(out, x) {
        let j = choose|j: int| 0 <= j < out.len() && out[j].0 == x.src && #[trigger] out[j].1.contains(x);
        assert(out_touch(out, key)[j] == out[j]);
    }
}

/// Makes sure `key` has an entry (with no edges if it is new).
pub open spec fn out_touch(
    out: Seq<(Seq<char>, Seq<FlowEdgeView>)>,
    key: Seq<char>,
) -> Seq<(Seq<char>, Seq<FlowEdgeView>)> {
    match find_out(out, key) {
        Some(k) => out,
        None => out.push((key, Seq::empty())),
    }
}

/// Position of the entry for `key` in `out`.
pub fn find_out_exec(out: &Vec<FlowOutgoing>, key: &String) -> (r: Option<usize>)
    ensures
        r is Some ==> find_out(outgoing_view(out@), key@) == Some(r->0 as int) && r->0 < out.len(),
        r is None ==> find_out(outgoing_view(out@), key@) is None,
{
    let ghost ov = outgoing_view(out@);
    proof {
        lemma_find_out_from(ov, key@, 0);
    }
    let mut i: usize = 0;
    while i < out.len()
        invariant
            i <= out.len(),
            ov == outgoing_view(out@),
            forall|j: int| 0 <= j < i ==> ov[j].0 != key@,
        decreases out.len() - i,
    {
        assert(ov.len() == out@.len());
        assert(ov[i as int] == out@[i as int]@);
        if out[i].id == *key {
            assert(ov[i as int].0 == key@);
            proof {
                lemma_find_out_from(ov, key@, 0);
            }
            assert(find_out(ov, key@) == Some(i as int));
            return Some(i);
        }
        i += 1;
    }
    proof {
        lemma_find_out_from(ov, key@, 0);
    }
    None
}

pub fn out_add_edge_exec(out: &mut Vec<FlowOutgoing>, e: FlowEdge)
    ensures
        outgoing_view(final(out)@) == out_add_edge(outgoing_view(old(out)@), e@),
{
    let ghost ov = outgoing_view(out@);
    proof {
        lemma_find_out_from(ov, e.src@, 0);
    }
    assert(ov.len() == out@.len());
    match find_out_exec(out, &e.src) {
        Some(k) => {
            assert(find_out(ov, e@.src) == Some(k as int));
            let mut entry = out.remove(k);
            let ghost ev = entry@;
            assert(ev == ov[k as int]);
            entry.edges.push(e);
            assert(edges_view(entry.edges@) =~= ev.1.push(e@));
            out.insert(k, entry);
            assert(outgoing_view(out@) =~= ov.update(k as int, (ov[k as int].0, ov[k as int].1.push(e@))));
        },
        None => {
            let key = e.src.clone();
            let mut edges: Vec<FlowEdge> = Vec::new();
            edges.push(e);
            out.push(FlowOutgoing { id: key, edges });
            assert(edges_view(edges@) =~= seq![e@]);
            assert(outgoing_view(out@) =~= ov.push((e@.src, seq![e@])));
        },
    }
}

pub fn out_touch_exec(out: &mut Vec<FlowOutgoing>, key: &String)
    ensures
        outgoing_view(final(out)@) == out_touch(outgoing_view(old(out)@), key@),
{
    let ghost ov = outgoing_view(out@);
    match find_out_exec(out, key) {
        Some(_) => {},
        None => {
            out.push(FlowOutgoing { id: key.clone(), edges: Vec::new() });
            assert(edges_view(Seq::<FlowEdge>::empty()) =~= Seq::<FlowEdgeView>::empty());
            assert(outgoing_view(out@) =~= ov.push((key@, Seq::<FlowEdgeView>::empty())));
        },
    }
}

/// A task node with more than one outgoing edge becomes a decision node.
pub open spec fn infer_kind(n: FlowNodeView, out: Seq<(Seq<char>, Seq<FlowEdgeView>)>) -> FlowNodeView {
    if n.kind == FlowNodeKind::Task && succ(out, n.id).len() > 1 {
        FlowNodeView { id: n.id, label: n.label, kind: FlowNodeKind::Decision }
    } else {
        n
    }
}

pub open spec fn infer_decisions(
    nodes: Seq<FlowNodeView>,
    out: Seq<(Seq<char>, Seq<FlowEdgeView>)>,
) -> Seq<FlowNodeView> {
    nodes.map_values(|n: FlowNodeView| infer_kind(n, out))
}

/// Number of edges leaving `id`.
pub fn succ_len(outgoing: &Vec<FlowOutgoing>, id: &String) -> (r: usize)
    ensures
        r == succ(outgoing_view(outgoing@), id@).len(),
{
    match find_out_exec(outgoing, id) {
        Some(k) => {
            assert(outgoing_view(outgoing@)[k as int] == outgoing@[k as int]@);
            outgoing[k].edges.len()
        },
        None => 0,
    }
}

/// Marks task nodes with more than one outgoing edge as decisions.
pub fn infer_decision_nodes(nodes: Vec<FlowNode>, outgoing: &Vec<FlowOutgoing>) -> (r: Vec<FlowNode>)
    ensures
        nodes_view(r@) == infer_decisions(nodes_view(nodes@), outgoing_view(outgoing@)),
{
    let ghost out = outgoing_view(outgoing@);
    let ghost nv = nodes_view(nodes@);
    let mut updated: Vec<FlowNode> = Vec::new();
    let mut i: usize = 0;
    while i < nodes.len()
        invariant
            i <= nodes.len(),
            out == outgoing_view(outgoing@),
            nv == nodes_view(nodes@),
            nodes_view(updated@) == infer_decisions(nv.subrange(0, i as int), out),
        decreases nodes.len() - i,
    {
        let n = &nodes[i];
        let k = succ_len(outgoing, &n.id);
        let m = if n.kind == FlowNodeKind::Task && k > 1 {
            FlowNode { id: n.id.clone(), label: n.label.clone(), kind: FlowNodeKind::Decision }
        } else {
            n.copy()
        };
        assert(m@ == infer_kind(nv[i as int], out));
        let ghost before = nodes_view(updated@);
        updated.push(m);
        assert(nodes_view(updated@) =~= before.push(m@));
        assert(infer_decisions(nv.subrange(0, i + 1), out) =~= infer_decisions(
            nv.subrange(0, i as int),
            out,
        ).push(infer_kind(nv[i as int], out)));
        i += 1;
    }
    assert(nv.subrange(0, nodes.len() as int) =~= nv);
    updated
}

/// Ids of the nodes of the given kind, in node order.
pub open spec fn kind_ids(nodes: Seq<FlowNodeView>, k: FlowNodeKind) -> Seq<Seq<char>>
    decreases nodes.len(),
{
    if nodes.len() == 0 {
        Seq::empty()
    } else {
        let r = kind_ids(nodes.drop_last(), k);
        if nodes.last().kind == k {
            r.push(nodes.last().id)
        } else {
            r
        }
    }
}

/// `b` is the destination of one of the edges leaving `a`.
pub open spec fn is_edge(out: Seq<(Seq<char>, Seq<FlowEdgeView>)>, a: Seq<char>, b: Seq<char>) -> bool {
    exists|j: int| 0 <= j < succ(out, a).len() && (#[trigger] succ(out, a)[j]).dst == b
}

/// `p` is a walk along edges.
pub open spec fn is_path(out: Seq<(Seq<char>, Seq<FlowEdgeView>)>, p: Seq<Seq<char>>) -> bool {
    p.len() >= 1 && forall|i: int| 0 <= i < p.len() - 1 ==> is_edge(out, #[trigger] p[i], p[i + 1])
}

/// `to` can be reached from `from` by following edges (every node reaches itself).
pub open spec fn reachable(out: Seq<(Seq<char>, Seq<FlowEdgeView>)>, from: Seq<char>, to: Seq<char>) -> bool {
    exists|p: Seq<Seq<char>>| #[trigger] is_path(out, p) && p[0] == from && p[p.len() - 1] == to
}

/// Ids of the nodes that cannot be reached from `b`, in node order.
pub open spec fn unreachable_ids(
    nodes: Seq<FlowNodeView>,
    out: Seq<(Seq<char>, Seq<FlowEdgeView>)>,
    b: Seq<char>,
) -> Seq<Seq<char>>
    decreases nodes.len(),
{
    if nodes.len() == 0 {
        Seq::empty()
    } else {
        let r = unreachable_ids(nodes.drop_last(), out, b);
        if !reachable(out, b, nodes.last().id) {
            r.push(nodes.last().id)
        } else {
            r
        }
    }
}

/// What validation makes of a flow: exactly one begin node, exactly one end
/// node, and every node reachable from the begin node; the result is the pair
/// (begin id, end id), the error is the message.
pub open spec fn validate_spec(
    nodes: Seq<FlowNodeView>,
    out: Seq<(Seq<char>, Seq<FlowEdgeView>)>,
) -> Result<(Seq<char>, Seq<char>), Seq<char>> {
    let bs = kind_ids(nodes, FlowNodeKind::Begin);
    let es = kind_ids(nodes, FlowNodeKind::End);
    if bs.len() == 0 {
        Err("Flow has no begin node"@)
    } else if bs.len() > 1 {
        Err("Flow has multiple begin nodes: "@ + join(bs, ", "@))
    } else if es.len() == 0 {
        Err("Flow has no end node"@)
    } else if es.len() > 1 {
        Err("Flow has multiple end nodes: "@ + join(es, ", "@))
    } else {
        let u = unreachable_ids(nodes, out, bs[0]);
        if u.len() > 0 {
            Err("Unreachable nodes: "@ + join(u, ", "@))
        } else {
            Ok((bs[0], es[0]))
        }
    }
}

pub open spec fn strs_view(v: Seq<String>) -> Seq<Seq<char>> {
    v.map_values(|s: String| s@)
}


pub fn ids_of_kind(nodes: &Vec<FlowNode>, k: FlowNodeKind) -> (r: Vec<Vec<char>>)
    ensures
        vecs_view(r@) == kind_ids(nodes_view(nodes@), k),
{
    let ghost nv = nodes_view(nodes@);
    let mut r: Vec<Vec<char>> = Vec::new();
    let mut i: usize = 0;
    while i < nodes.len()
        invariant
            i <= nodes.len(),
            nv == nodes_view(nodes@),
            vecs_view(r@) == kind_ids(nv.subrange(0, i as int), k),
        decreases nodes.len() - i,
    {
        assert(nv.subrange(0, i + 1).drop_last() =~= nv.subrange(0, i as int));
        if nodes[i].kind == k {
            r.push(chars_of_string(&nodes[i].id));
        }
        assert(vecs_view(r@) =~= kind_ids(nv.subrange(0, i + 1), k));
        i += 1;
    }
    assert(nv.subrange(0, nodes.len() as int) =~= nv);
    r
}

/// Every destination of every edge in `out`.
pub open spec fn all_dsts(out: Seq<(Seq<char>, Seq<FlowEdgeView>)>) -> Seq<Seq<char>>
    decreases out.len(),
{
    if out.len() == 0 {
        Seq::empty()
    } else {
        all_dsts(out.drop_last()) + out.last().1.map_values(|e: FlowEdgeView| e.dst)
    }
}

proof fn lemma_all_dsts(out: Seq<(Seq<char>, Seq<FlowEdgeView>)>, k: int, j: int)
    requires
        0 <= k < out.len(),
        0 <= j < out[k].1.len(),
    ensures
        all_dsts(out).contains(out[k].1[j].dst),
    decreases out.len(),
{
    if k == out.len() - 1 {
        let tail = out.last().1.map_values(|e: FlowEdgeView| e.dst);
        assert(tail[j] == out[k].1[j].dst);
        assert((all_dsts(out.drop_last()) + tail)[all_dsts(out.drop_last()).len() + j] == tail[j]);
    } else {
        lemma_all_dsts(out.drop_last(), k, j);
        let w = choose|i: int| 0 <= i < all_dsts(out.drop_last()).len() && all_dsts(out.drop_last())[i] == out[k].1[j].dst;
        assert(all_dsts(out)[w] == out[k].1[j].dst);
    }
}

proof fn lemma_succ_in_dsts(out: Seq<(Seq<char>, Seq<FlowEdgeView>)>, a: Seq<char>, j: int)
    requires
        0 <= j < succ(out, a).len(),
    ensures
        all_dsts(out).contains(succ(out, a)[j].dst),
{
    lemma_find_out_from(out, a, 0);
    let k = find_out(out, a)->0;
    lemma_all_dsts(out, k, j);
}

/// A set of nodes that holds `b` and every successor of its members holds
/// everything reachable from `b`.
proof fn lemma_closed_holds_reachable(
    out: Seq<(Seq<char>, Seq<FlowEdgeView>)>,
    vis: Seq<Seq<char>>,
    b: Seq<char>,
    x: Seq<char>,
)
    requires
        vis.contains(b),
        forall|y: Seq<char>, j: int|
            vis.contains(y) && 0 <= j < succ(out, y).len() ==> vis.contains(
                #[trigger] succ(out, y)[j].dst,
            ),
        reachable(out, b, x),
    ensures
        vis.contains(x),
{
    let p = choose|p: Seq<Seq<char>>| #[trigger] is_path(out, p) && p[0] == b && p[p.len() - 1] == x;
    lemma_path_in_closed(out, vis, p, p.len() - 1);
}

proof fn lemma_path_in_closed(
    out: Seq<(Seq<char>, Seq<FlowEdgeView>)>,
    vis: Seq<Seq<char>>,
    p: Seq<Seq<char>>,
    i: int,
)
    requires
        is_path(out, p),
        vis.contains(p[0]),
        forall|y: Seq<char>, j: int|
            vis.contains(y) && 0 <= j < succ(out, y).len() ==> vis.contains(
                #[trigger] succ(out, y)[j].dst,
            ),
        0 <= i < p.len(),
    ensures
        vis.contains(p[i]),
    decreases i,
{
    if i > 0 {
        lemma_path_in_closed(out, vis, p, i - 1);
        assert(is_edge(out, p[i - 1], p[i]));
        let j = choose|j: int| 0 <= j < succ(out, p[i - 1]).len() && (#[trigger] succ(out, p[i - 1])[j]).dst == p[i];
        assert(vis.contains(succ(out, p[i - 1])[j].dst));
    }
}

proof fn lemma_reach_step(
    out: Seq<(Seq<char>, Seq<FlowEdgeView>)>,
    b: Seq<char>,
    a: Seq<char>,
    j: int,
)
    requires
        reachable(out, b, a),
        0 <= j < succ(out, a).len(),
    ensures
        reachable(out, b, succ(out, a)[j].dst),
{
    let p = choose|p: Seq<Seq<char>>| #[trigger] is_path(out, p) && p[0] == b && p[p.len() - 1] == a;
    let q = p.push(succ(out, a)[j].dst);
    assert(is_edge(out, a, succ(out, a)[j].dst));
    assert forall|i: int| 0 <= i < q.len() - 1 implies is_edge(out, #[trigger] q[i], q[i + 1]) by {
        if i < p.len() - 1 {
            assert(q[i] == p[i] && q[i + 1] == p[i + 1]);
        }
    }
    assert(is_path(out, q));
}

proof fn lemma_reach_self(out: Seq<(Seq<char>, Seq<FlowEdgeView>)>, b: Seq<char>)
    ensures
        reachable(out, b, b),
{
    let p = seq![b];
    assert(is_path(out, p));
}

pub fn contains_vec(v: &Vec<Vec<char>>, x: &Vec<char>) -> (r: bool)
    ensures
        r == vecs_view(v@).contains(x@),
{
    let mut i: usize = 0;
    while i < v.len()
        invariant
            i <= v.len(),
            forall|j: int| 0 <= j < i ==> vecs_view(v@)[j] != x@,
        decreases v.len() - i,
    {
        if eq_vec(&v[i], x) {
            assert(vecs_view(v@)[i as int] == x@);
            return true;
        }
        i += 1;
    }
    assert forall|j: int| 0 <= j < vecs_view(v@).len() implies vecs_view(v@)[j] != x@ by {}
    false
}

/// The set of node ids reachable from `b`, computed by depth-first search.
fn reachable_from(outgoing: &Vec<FlowOutgoing>, b: &Vec<char>) -> (vis: Vec<Vec<char>>)
    ensures
        forall|x: Seq<char>|
            vecs_view(vis@).contains(x) <==> reachable(outgoing_view(outgoing@), b@, x),
{
    let ghost out = outgoing_view(outgoing@);
    let ghost univ = seq![b@] + all_dsts(out);
    let mut visited: Vec<Vec<char>> = Vec::new();
    let mut stack: Vec<Vec<char>> = Vec::new();
    stack.push(sub_vec(b, 0, b.len()));
    assert(b@.subrange(0, b@.len() as int) =~= b@);
    proof {
        lemma_reach_self(out, b@);
        assert(vecs_view(stack@) =~= seq![b@]);
        assert(univ[0] == b@);
    }
    loop
        invariant
            out == outgoing_view(outgoing@),
            univ == seq![b@] + all_dsts(out),
            forall|x: Seq<char>|
                vecs_view(visited@).contains(x) || vecs_view(stack@).contains(x) ==> reachable(
                    out,
                    b@,
                    x,
                ),
            forall|x: Seq<char>|
                vecs_view(visited@).contains(x) || vecs_view(stack@).contains(x) ==> univ.contains(
                    x,
                ),
            vecs_view(visited@).contains(b@) || vecs_view(stack@).contains(b@),
            forall|y: Seq<char>, j: int|
                vecs_view(visited@).contains(y) && 0 <= j < succ(out, y).len() ==> vecs_view(
                    visited@,
                ).contains(#[trigger] succ(out, y)[j].dst) || vecs_view(stack@).contains(
                    succ(out, y)[j].dst,
                ),
            vecs_view(visited@).no_duplicates(),
            visited.len() <= univ.len(),
        decreases univ.len() - visited.len(), stack.len(),
    {
        let ghost vv = vecs_view(visited@);
        let ghost sv = vecs_view(stack@);
        match stack.pop() {
            None => {
                assert(vecs_view(stack@).len() == 0);
                proof {
                    assert forall|x: Seq<char>|
                        vecs_view(visited@).contains(x) <==> reachable(out, b@, x) by {
                        if reachable(out, b@, x) {
                            lemma_closed_holds_reachable(out, vecs_view(visited@), b@, x);
                        }
                    }
                }
                return visited;
            },
            Some(curr) => {
                assert(sv =~= vecs_view(stack@).push(curr@));
                assert(sv.contains(curr@)) by {
                    assert(sv[sv.len() - 1] == curr@);
                }
                if contains_vec(&visited, &curr) {
                    assert forall|x: Seq<char>| #[trigger] sv.contains(x) implies vecs_view(
                        visited@,
                    ).contains(x) || vecs_view(stack@).contains(x) by {
                        let k = choose|k: int| 0 <= k < sv.len() && sv[k] == x;
                        if k < sv.len() - 1 {
                            assert(vecs_view(stack@)[k] == x);
                        }
                    }
                    assert forall|x: Seq<char>| #[trigger] vecs_view(stack@).contains(x) implies sv.contains(x) by {
                        let k = choose|k: int| 0 <= k < vecs_view(stack@).len() && vecs_view(stack@)[k] == x;
                        assert(sv[k] == x);
                    }
                } else {
                    let key = string_of(&curr);
                    visited.push(curr);
                    let ghost vv2 = vecs_view(visited@);
                    assert(vv2 =~= vv.push(curr@));
                    proof {
                        assert forall|x: Seq<char>| #[trigger] sv.contains(x) implies vv2.contains(x)
                            || vecs_view(stack@).contains(x) by {
                            let k = choose|k: int| 0 <= k < sv.len() && sv[k] == x;
                            if k < sv.len() - 1 {
                                assert(vecs_view(stack@)[k] == x);
                            } else {
                                assert(vv2[vv2.len() - 1] == x);
                            }
                        }
                        assert forall|x: Seq<char>| #[trigger] vv.contains(x) implies vv2.contains(x) by {
                            let k = choose|k: int| 0 <= k < vv.len() && vv[k] == x;
                            assert(vv2[k] == x);
                        }
                        assert(vv2.contains(curr@)) by {
                            assert(vv2[vv2.len() - 1] == curr@);
                        }
                        assert(vv2.no_duplicates());
                        vv2.unique_seq_to_set();
                        univ.lemma_cardinality_of_set();
                        assert(vv2.to_set().subset_of(univ.to_set()));
                        vstd::set_lib::lemma_len_subset(vv2.to_set(), univ.to_set());
                    }
                    match find_out_exec(outgoing, &key) {
                        None => {
                            assert(succ(out, curr@).len() == 0);
                        },
                        Some(k) => {
                            let edges = &outgoing[k].edges;
                            assert(out[k as int] == outgoing@[k as int]@);
                            assert(succ(out, curr@) == edges_view(edges@));
                            let ghost s0 = vecs_view(stack@);
                            let mut t: usize = 0;
                            while t < edges.len()
                                invariant
                                    t <= edges.len(),
                                    out == outgoing_view(outgoing@),
                                    succ(out, curr@) == edges_view(edges@),
                                    vecs_view(stack@) =~= s0 + edges_view(edges@).subrange(
                                        0,
                                        t as int,
                                    ).map_values(|e: FlowEdgeView| e.dst),
                                decreases edges.len() - t,
                            {
                                let ghost sb = vecs_view(stack@);
                                let d = chars_of_string(&edges[t].dst);
                                stack.push(d);
                                assert(vecs_view(stack@) =~= sb.push(d@));
                                assert(edges_view(edges@)[t as int] == edges@[t as int]@);
                                assert(edges_view(edges@).subrange(0, t + 1).map_values(
                                    |e: FlowEdgeView| e.dst,
                                ) =~= edges_view(edges@).subrange(0, t as int).map_values(
                                    |e: FlowEdgeView| e.dst,
                                ).push(edges@[t as int].dst@));
                                t += 1;
                            }
                            assert(edges_view(edges@).subrange(0, edges.len() as int)
                                =~= edges_view(edges@));
                        },
                    }
                    proof {
                        let sv2 = vecs_view(stack@);
                        let ds = succ(out, curr@).map_values(|e: FlowEdgeView| e.dst);
                        assert(sv2 =~= vecs_view(stack@));
                        assert(reachable(out, b@, curr@) && univ.contains(curr@));
                        if vv.contains(b@) {
                            assert(vv2.contains(b@));
                        } else {
                            let k = choose|k: int| 0 <= k < sv.len() && sv[k] == b@;
                            if k < sv.len() - 1 {
                                assert(sv2[k] == b@);
                            } else {
                                assert(vv2[vv2.len() - 1] == b@);
                            }
                        }
                        assert forall|x: Seq<char>| #[trigger] vv2.contains(x) implies reachable(
                            out,
                            b@,
                            x,
                        ) && univ.contains(x) by {
                            let k = choose|k: int| 0 <= k < vv2.len() && vv2[k] == x;
                            if k < vv.len() {
                                assert(vv[k] == x);
                                assert(vv.contains(x));
                            }
                        }
                        assert forall|x: Seq<char>| #[trigger] sv2.contains(x) implies reachable(
                            out,
                            b@,
                            x,
                        ) && univ.contains(x) by {
                            let k = choose|k: int| 0 <= k < sv2.len() && sv2[k] == x;
                            let s0len = sv.len() - 1;
                            if k < s0len {
                                assert(sv[k] == x);
                                assert(sv.contains(x));
                            } else {
                                let j = k - s0len;
                                assert(x == succ(out, curr@)[j].dst);
                                lemma_reach_step(out, b@, curr@, j);
                                lemma_succ_in_dsts(out, curr@, j);
                                let w = choose|w: int| 0 <= w < all_dsts(out).len() && all_dsts(out)[w] == x;
                                assert(univ[w + 1] == x);
                            }
                        }
                        assert forall|y: Seq<char>, j: int|
                            vv2.contains(y) && 0 <= j < succ(out, y).len() implies vv2.contains(
                            #[trigger] succ(out, y)[j].dst) || sv2.contains(succ(out, y)[j].dst) by {
                            let z = succ(out, y)[j].dst;
                            if y == curr@ {
                                let s0len = sv.len() - 1;
                                assert(sv2[s0len + j] == z);
                            } else {
                                let k = choose|k: int| 0 <= k < vv2.len() && vv2[k] == y;
                                assert(vv[k] == y);
                                if vv.contains(z) {
                                } else {
                                    assert(sv.contains(z));
                                    let m = choose|m: int| 0 <= m < sv.len() && sv[m] == z;
                                    if m < sv.len() - 1 {
                                        assert(sv2[m] == z);
                                    } else {
                                        assert(vv2[vv2.len() - 1] == z);
                                    }
                                }
                            }
                        }
                    }
                }
            },
        }
    }
}

pub open spec fn result_view(r: Result<(Option<String>, Option<String>), FlowError>) -> Result<
    (Seq<char>, Seq<char>),
    Seq<char>,
> {
    match r {
        Ok((Some(b), Some(e))) => Ok((b@, e@)),
        Ok(_) => Err(Seq::empty()),
        Err(e) => Err(e.message@),
    }
}

fn prefixed_list(prefix: &str, items: &Vec<Vec<char>>) -> (r: FlowError)
    ensures
        r.message@ == prefix@ + join(vecs_view(items@), ", "@),
{
    let mut m = chars_of(prefix);
    let j = join_exec(items, &chars_of(", "));
    assert(items@.map_values(|p: Vec<char>| p@) == vecs_view(items@));
    append_vec(&mut m, &j);
    FlowError::new(string_of(&m))
}

/// Validates that the flow has exactly one begin and one end node and that
/// every node can be reached from the begin node.
pub fn validate_flow(nodes: &Vec<FlowNode>, outgoing: &Vec<FlowOutgoing>) -> (r: Result<
    (Option<String>, Option<String>),
    FlowError,
>)
    ensures
        result_view(r) == validate_spec(nodes_view(nodes@), outgoing_view(outgoing@)),
        r matches Ok((b, e)) ==> b is Some && e is Some,
{
    let ghost nv = nodes_view(nodes@);
    let ghost out = outgoing_view(outgoing@);
    let begin_ids = ids_of_kind(nodes, FlowNodeKind::Begin);
    let end_ids = ids_of_kind(nodes, FlowNodeKind::End);
    if begin_ids.len() == 0 {
        return Err(FlowError::new(String::from_str("Flow has no begin node")));
    }
    if begin_ids.len() > 1 {
        return Err(prefixed_list("Flow has multiple begin nodes: ", &begin_ids));
    }
    if end_ids.len() == 0 {
        return Err(FlowError::new(String::from_str("Flow has no end node")));
    }
    if end_ids.len() > 1 {
        return Err(prefixed_list("Flow has multiple end nodes: ", &end_ids));
    }
    let begin = &begin_ids[0];
    assert(vecs_view(begin_ids@)[0] == begin@);
    let visited = reachable_from(outgoing, begin);
    let mut unreachable: Vec<Vec<char>> = Vec::new();
    let mut i: usize = 0;
    while i < nodes.len()
        invariant
            i <= nodes.len(),
            nv == nodes_view(nodes@),
            out == outgoing_view(outgoing@),
            forall|x: Seq<char>|
                vecs_view(visited@).contains(x) <==> reachable(out, begin@, x),
            vecs_view(unreachable@) == unreachable_ids(nv.subrange(0, i as int), out, begin@),
        decreases nodes.len() - i,
    {
        assert(nv.subrange(0, i + 1).drop_last() =~= nv.subrange(0, i as int));
        let id = chars_of_string(&nodes[i].id);
        assert(nv[i as int].id == id@);
        if !contains_vec(&visited, &id) {
            unreachable.push(id);
        }
        assert(vecs_view(unreachable@) =~= unreachable_ids(nv.subrange(0, i + 1), out, begin@));
        i += 1;
    }
    assert(nv.subrange(0, nodes.len() as int) =~= nv);
    if unreachable.len() > 0 {
        return Err(prefixed_list("Unreachable nodes: ", &unreachable));
    }
    assert(vecs_view(end_ids@)[0] == end_ids@[0]@);
    Ok((Some(string_of(begin)), Some(string_of(&end_ids[0]))))
}

/// The outgoing entries of a flow, by node id, as values.
pub type OutView = Seq<(Seq<char>, Seq<FlowEdgeView>)>;

/// Every node id given an outgoing entry, from position `k` on.
pub open spec fn touch_all(out: OutView, nodes: Seq<FlowNodeView>, k: int) -> OutView
    decreases nodes.len() - k,
{
    if k < 0 || k >= nodes.len() {
        out
    } else {
        touch_all(out_touch(out, nodes[k].id), nodes, k + 1)
    }
}


/// What completing a parse gives: every node gets an outgoing entry, task
/// nodes with several outgoing edges become decisions, and the result is
/// validated.
pub open spec fn finish_spec(defs: Seq<NodeDefView>, out: OutView) -> Result<FlowView, Seq<char>> {
    let nodes0 = def_nodes(defs);
    let out2 = touch_all(out, nodes0, 0);
    let nodes = infer_decisions(nodes0, out2);
    match validate_spec(nodes, out2) {
        Err(m) => Err(m),
        Ok((b, e)) => Ok(FlowView { nodes, outgoing: out2, begin_id: Some(b), end_id: Some(e) }),
    }
}

/// Builds the flow from the parsed node definitions and edges (see `finish_spec`).
pub fn finish_flow(nodes: &Vec<NodeDef>, outgoing: Vec<FlowOutgoing>) -> (r: Result<Flow, FlowError>)
    ensures
        match finish_spec(defs_view(nodes@), outgoing_view(outgoing@)) {
            Ok(f) => r is Ok && r->Ok_0@ == f,
            Err(m) => r is Err && r->Err_0.message@ == m,
        },
{
    let mut outgoing = outgoing;
    let mut flow_nodes: Vec<FlowNode> = Vec::new();
    let ghost dv = defs_view(nodes@);
    let mut i: usize = 0;
    while i < nodes.len()
        invariant
            i <= nodes.len(),
            dv == defs_view(nodes@),
            nodes_view(flow_nodes@) == def_nodes(dv).subrange(0, i as int),
        decreases nodes.len() - i,
    {
        let n = nodes[i].node.copy();
        let ghost before = nodes_view(flow_nodes@);
        flow_nodes.push(n);
        assert(nodes_view(flow_nodes@) =~= before.push(n@));
        assert(def_nodes(dv).subrange(0, i + 1) =~= def_nodes(dv).subrange(0, i as int).push(dv[i as int].node));
        i += 1;
    }
    assert(def_nodes(dv).subrange(0, nodes.len() as int) =~= def_nodes(dv));
    let ghost nv0 = nodes_view(flow_nodes@);
    let ghost out1 = outgoing_view(outgoing@);
    let mut j: usize = 0;
    while j < flow_nodes.len()
        invariant
            j <= flow_nodes.len(),
            nv0 == nodes_view(flow_nodes@),
            touch_all(out1, nv0, 0) == touch_all(outgoing_view(outgoing@), nv0, j as int),
        decreases flow_nodes.len() - j,
    {
        assert(nv0[j as int] == flow_nodes@[j as int]@);
        out_touch_exec(&mut outgoing, &flow_nodes[j].id);
        j += 1;
    }
    assert(touch_all(out1, nv0, 0) == outgoing_view(outgoing@));
    assert(nv0 == def_nodes(dv));
    let flow_nodes = infer_decision_nodes(flow_nodes, &outgoing);
    match validate_flow(&flow_nodes, &outgoing) {
        Err(e) => Err(e),
        Ok((begin_id, end_id)) => Ok(Flow { nodes: flow_nodes, outgoing, begin_id, end_id }),
    }
}

/// A parse result agrees with what the parse is specified to give.
pub open spec fn flow_result_matches(r: Result<Flow, FlowError>, s: Result<FlowView, Option<Seq<char>>>) -> bool {
    match s {
        Ok(f) => r is Ok && r->Ok_0@ == f,
        Err(Some(m)) => r is Err && r->Err_0.message@ == m,
        Err(None) => false,
    }
}

} // verus!
