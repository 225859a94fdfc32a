//! The control flow graph as a `petgraph` graph, for drawing: one node per
//! basic block, labelled with its statements, and one edge per jump.
use vstd::prelude::*;
use petgraph::graph::NodeIndex;
use petgraph::{Directed, Graph};
use crate::hir::{
    BasicBlockData, BinOp, Body, Operand, Place, Rvalue, Statement, Terminator, UnOp,
};
use crate::text::{decimal, push_char, push_decimal};

verus! {

#[verifier::external_type_specification]
#[verifier::external_body]
#[verifier::reject_recursive_types(N)]
#[verifier::reject_recursive_types(E)]
#[verifier::reject_recursive_types(Ty)]
#[verifier::reject_recursive_types(Ix)]
pub struct ExGraph<N, E, Ty, Ix>(Graph<N, E, Ty, Ix>);

#[verifier::external_type_specification]
#[verifier::external_body]
pub struct ExDirected(Directed);

/// The node weights of a graph, in order of insertion.
pub uninterp spec fn graph_nodes(g: Graph<String, String>) -> Seq<Seq<char>>;

/// The edges of a graph (source, target, weight), in order of insertion.
pub uninterp spec fn graph_edges(g: Graph<String, String>) -> Seq<(nat, nat, Seq<char>)>;

/// Relies on `Graph::new` of petgraph: a directed graph without nodes or
/// edges.
#[verifier::external_body]
fn new_graph() -> (r: Graph<String, String>)
    ensures
        graph_nodes(r) == Seq::<Seq<char>>::empty(),
        graph_edges(r) == Seq::<(nat, nat, Seq<char>)>::empty(),
{
    Graph::new()
}

/// Relies on `Graph::add_node` of petgraph: the node is appended and its
/// index is the former node count; it panics only at `u32::MAX` nodes.
#[verifier::external_body]
fn add_node(g: &mut Graph<String, String>, weight: String) -> (r: usize)
    requires
        graph_nodes(*old(g)).len() < u32::MAX,
    ensures
        graph_nodes(*final(g)) == graph_nodes(*old(g)).push(weight@),
        graph_edges(*final(g)) == graph_edges(*old(g)),
        r == graph_nodes(*old(g)).len(),
{
    g.add_node(weight).index()
}

/// Relies on `Graph::add_edge` of petgraph: the edge is appended; it panics
/// only when a node does not exist or at `u32::MAX` edges.
#[verifier::external_body]
fn add_edge(g: &mut Graph<String, String>, a: usize, b: usize, weight: String)
    requires
        a < graph_nodes(*old(g)).len(),
        b < graph_nodes(*old(g)).len(),
        graph_edges(*old(g)).len() < u32::MAX,
    ensures
        graph_nodes(*final(g)) == graph_nodes(*old(g)),
        graph_edges(*final(g)) == graph_edges(*old(g)).push((a as nat, b as nat, weight@)),
{
    g.add_edge(NodeIndex::new(a), NodeIndex::new(b), weight);
}


/// A signed integer in decimal.
pub open spec fn signed_decimal(v: int) -> Seq<char> {
    if v < 0 {
        seq!['-'] + decimal((-v) as nat)
    } else {
        decimal(v as nat)
    }
}

pub open spec fn binop_symbol(op: BinOp) -> Seq<char> {
    match op {
        BinOp::Add => "+"@,
        BinOp::Sub => "-"@,
        BinOp::Mul => "*"@,
        BinOp::Div => "/"@,
        BinOp::Rem => "%"@,
        BinOp::BitXor => "^"@,
        BinOp::BitAnd => "&"@,
        BinOp::BitOr => "|"@,
        BinOp::ShiftLeft => "<<"@,
        BinOp::ShiftRight => ">>"@,
        BinOp::Eq => "=="@,
        BinOp::Ne => "!="@,
        BinOp::Lt => "<"@,
        BinOp::Gt => ">"@,
        BinOp::Le => "<="@,
        BinOp::Ge => ">="@,
    }
}

pub open spec fn unop_symbol(op: UnOp) -> Seq<char> {
    match op {
        UnOp::Neg => "-"@,
        UnOp::Not => "!"@,
    }
}

/// `%i` for local `i`.
pub open spec fn place_text(p: Place) -> Seq<char> {
    match p {
        Place::Local(i) => seq!['%'] + decimal(i as nat),
    }
}

/// `copy %i`, `move %i`, or `value: type` for a constant.
pub open spec fn operand_text(o: Operand) -> Seq<char> {
    match o {
        Operand::Copy(p) => "copy "@ + place_text(p),
        Operand::Move(p) => "move "@ + place_text(p),
        Operand::Constant(c) => c.value@ + ": "@ + c.ty.spec_name(),
    }
}

pub open spec fn rvalue_text(r: Rvalue) -> Seq<char> {
    match r {
        Rvalue::Use(o) => operand_text(o),
        Rvalue::BinaryOp(op, a, b) => operand_text(*a) + " "@ + binop_symbol(op) + " "@
            + operand_text(*b),
        Rvalue::UnaryOp(op, a) => unop_symbol(op) + operand_text(*a),
    }
}

/// `place = rvalue` and a line break.
pub open spec fn statement_text(s: Statement) -> Seq<char> {
    match s {
        Statement::Assign(p, r) => place_text(*p) + " = "@ + rvalue_text(*r) + "\n"@,
    }
}

pub open spec fn statements_text(ss: Seq<Statement>) -> Seq<char>
    decreases ss.len(),
{
    if ss.len() == 0 {
        Seq::empty()
    } else {
        statements_text(ss.drop_last()) + statement_text(ss.last())
    }
}

/// The label of a block's node: its statements, then `switch(value)` or
/// `return` for those terminators.
pub open spec fn node_label(b: BasicBlockData) -> Seq<char> {
    statements_text(b.statements@) + match b.terminator {
        Some(Terminator::SwitchInt { value, .. }) => "switch("@ + operand_text(value) + ")"@,
        Some(Terminator::Return) => "return"@,
        _ => Seq::empty(),
    }
}

/// The edges out of block `j`: one unlabelled edge for a jump or a call,
/// one edge labelled with its value for each case of a switch.
pub open spec fn block_edges(b: BasicBlockData, j: nat) -> Seq<(nat, nat, Seq<char>)> {
    match b.terminator {
        Some(Terminator::Goto { target }) => seq![(j, target.0 as nat, Seq::empty())],
        Some(Terminator::Call { target, .. }) => seq![(j, target.0 as nat, Seq::empty())],
        Some(Terminator::SwitchInt { targets, .. }) => Seq::new(
            if targets.values@.len() < targets.blocks@.len() {
                targets.values@.len()
            } else {
                targets.blocks@.len()
            },
            |k: int|
                (j, targets.blocks@[k].0 as nat, signed_decimal(targets.values@[k] as int)),
        ),
        _ => Seq::empty(),
    }
}

pub open spec fn edges_upto(body: Body, n: int) -> Seq<(nat, nat, Seq<char>)>
    decreases n,
{
    if n <= 0 {
        Seq::empty()
    } else {
        edges_upto(body, n - 1) + block_edges(body.basic_blocks@[n - 1], (n - 1) as nat)
    }
}

/// Every block that a terminator names exists.
pub open spec fn targets_in_range(body: Body) -> bool {
    forall|j: int, k: int|
        0 <= j < body.basic_blocks@.len() && body.basic_blocks@[j].terminator is Some && 0 <= k
            < body.basic_blocks@[j].terminator->0.spec_successors().len() ==> (
        #[trigger] body.basic_blocks@[j].terminator->0.spec_successors()[k]).0
            < body.basic_blocks@.len()
}

proof fn lemma_edges_upto_grows(body: Body, j: int, n: int)
    requires
        0 <= j <= n,
    ensures
        edges_upto(body, j).len() <= edges_upto(body, n).len(),
    decreases n - j,
{
    if j < n {
        lemma_edges_upto_grows(body, j, n - 1);
    }
}

fn push_i128(out: &mut String, v: i128)
    ensures
        final(out)@ == old(out)@ + signed_decimal(v as int),
{
    if v < 0 {
        push_char(out, '-');
        let m: u128 = ((-(v + 1)) as u128) + 1;
        push_decimal(out, m);
        assert(final(out)@ =~= old(out)@ + signed_decimal(v as int));
    } else {
        push_decimal(out, v as u128);
    }
}

fn push_place(out: &mut String, p: &Place)
    ensures
        final(out)@ == old(out)@ + place_text(*p),
{
    match p {
        Place::Local(i) => {
            push_char(out, '%');
            push_decimal(out, *i as u128);
        },
    }
    assert(final(out)@ =~= old(out)@ + place_text(*p));
}

fn push_operand(out: &mut String, o: &Operand)
    ensures
        final(out)@ == old(out)@ + operand_text(*o),
{
    match o {
        Operand::Copy(p) => {
            out.append("copy ");
            push_place(out, p);
        },
        Operand::Move(p) => {
            out.append("move ");
            push_place(out, p);
        },
        Operand::Constant(c) => {
            out.append(c.value.as_str());
            out.append(": ");
            out.append(c.ty.name());
        },
    }
    assert(final(out)@ =~= old(out)@ + operand_text(*o));
}

fn binop_symbol_of(op: BinOp) -> (r: &'static str)
    ensures
        r@ == binop_symbol(op),
{
    match op {
        BinOp::Add => "+",
        BinOp::Sub => "-",
        BinOp::Mul => "*",
        BinOp::Div => "/",
        BinOp::Rem => "%",
        BinOp::BitXor => "^",
        BinOp::BitAnd => "&",
        BinOp::BitOr => "|",
        BinOp::ShiftLeft => "<<",
        BinOp::ShiftRight => ">>",
        BinOp::Eq => "==",
        BinOp::Ne => "!=",
        BinOp::Lt => "<",
        BinOp::Gt => ">",
        BinOp::Le => "<=",
        BinOp::Ge => ">=",
    }
}

fn push_statement(out: &mut String, s: &Statement)
    ensures
        final(out)@ == old(out)@ + statement_text(*s),
{
    match s {
        Statement::Assign(p, r) => {
            push_place(out, p);
            out.append(" = ");
            match &**r {
                Rvalue::Use(o) => push_operand(out, o),
                Rvalue::BinaryOp(op, a, b) => {
                    push_operand(out, a);
                    out.append(" ");
                    out.append(binop_symbol_of(*op));
                    out.append(" ");
                    push_operand(out, b);
                },
                Rvalue::UnaryOp(op, a) => {
                    match op {
                        UnOp::Neg => out.append("-"),
                        UnOp::Not => out.append("!"),
                    }
                    push_operand(out, a);
                },
            }
            out.append("\n");
        },
    }
    assert(final(out)@ =~= old(out)@ + statement_text(*s));
}

/// The label of a block's node.
pub fn node_label_of(b: &BasicBlockData) -> (r: String)
    ensures
        r@ == node_label(*b),
{
    let mut out = String::new();
    let mut i: usize = 0;
    while i < b.statements.len()
        invariant
            i <= b.statements@.len(),
            out@ == statements_text(b.statements@.subrange(0, i as int)),
        decreases b.statements@.len() - i,
    {
        push_statement(&mut out, &b.statements[i]);
        assert(b.statements@.subrange(0, i + 1).drop_last() =~= b.statements@.subrange(0, i as int));
        i = i + 1;
    }
    assert(b.statements@.subrange(0, b.statements@.len() as int) =~= b.statements@);
    let ghost stmts = out@;
    match &b.terminator {
        Some(Terminator::SwitchInt { value, .. }) => {
            out.append("switch(");
            push_operand(&mut out, value);
            out.append(")");
        },
        Some(Terminator::Return) => out.append("return"),
        _ => {},
    }
    assert(out@ =~= node_label(*b));
    out
}

/// Builds the graph of a body: node `i` is block `i`, labelled with
/// `node_label`; the edges are those of `block_edges`, block by block.
/// Gives `None` only where petgraph's `u32` indices would run out.
pub fn graphify(body: &Body) -> (r: Option<Graph<String, String>>)
    requires
        targets_in_range(*body),
    ensures
        r matches Some(g) ==> graph_nodes(g) == body.basic_blocks@.map_values(
            |b: BasicBlockData| node_label(b),
        ) && graph_edges(g) == edges_upto(*body, body.basic_blocks@.len() as int),
        r is None ==> body.basic_blocks@.len() >= u32::MAX || edges_upto(
            *body,
            body.basic_blocks@.len() as int,
        ).len() >= u32::MAX,
{
    let mut g = new_graph();
    let n = body.basic_blocks.len();
    let mut i: usize = 0;
    while i < n
        invariant
            n == body.basic_blocks@.len(),
            i <= n,
            graph_nodes(g) == body.basic_blocks@.subrange(0, i as int).map_values(
                |b: BasicBlockData| node_label(b),
            ),
            graph_edges(g) == Seq::<(nat, nat, Seq<char>)>::empty(),
        decreases n - i,
    {
        if i >= u32::MAX as usize {
            return None;
        }
        let label = node_label_of(&body.basic_blocks[i]);
        add_node(&mut g, label);
        i = i + 1;
        assert(graph_nodes(g) =~= body.basic_blocks@.subrange(0, i as int).map_values(
            |b: BasicBlockData| node_label(b),
        ));
    }
    assert(body.basic_blocks@.subrange(0, n as int) =~= body.basic_blocks@);
    let mut j: usize = 0;
    let mut ecount: usize = 0;
    while j < n
        invariant
            ecount == graph_edges(g).len(),
            n == body.basic_blocks@.len(),
            targets_in_range(*body),
            j <= n,
            graph_nodes(g) == body.basic_blocks@.map_values(|b: BasicBlockData| node_label(b)),
            graph_nodes(g).len() == n,
            graph_edges(g) == edges_upto(*body, j as int),
        decreases n - j,
    {
        let ghost before = graph_edges(g);
        let b = &body.basic_blocks[j];
        match &b.terminator {
            Some(Terminator::Goto { target }) => {
                if ecount >= u32::MAX as usize {
                    proof {
                        lemma_edges_upto_grows(*body, j as int, n as int);
                    }
                    return None;
                }
                assert(b.terminator->0.spec_successors()[0] == *target);
                add_edge(&mut g, j, target.0, String::new());
                ecount = ecount + 1;
            },
            Some(Terminator::Call { target, .. }) => {
                if ecount >= u32::MAX as usize {
                    proof {
                        lemma_edges_upto_grows(*body, j as int, n as int);
                    }
                    return None;
                }
                assert(b.terminator->0.spec_successors()[0] == *target);
                add_edge(&mut g, j, target.0, String::new());
                ecount = ecount + 1;
            },
            Some(Terminator::SwitchInt { targets, .. }) => {
                let m = if targets.values.len() < targets.blocks.len() {
                    targets.values.len()
                } else {
                    targets.blocks.len()
                };
                let mut k: usize = 0;
                let ghost be = block_edges(*b, j as nat);
                assert(be.len() == m);
                assert(b.terminator->0.spec_successors() == targets.blocks@);
                assert forall|q: int| 0 <= q < targets.blocks@.len() implies (
                #[trigger] targets.blocks@[q]).0 < n by {
                    assert(b.terminator->0.spec_successors()[q] == targets.blocks@[q]);
                }
                while k < m
                    invariant
                        ecount == graph_edges(g).len(),
                        j < n,
                        graph_nodes(g).len() == n,
                        before == edges_upto(*body, j as int),
                        *b == body.basic_blocks@[j as int],
                        be == block_edges(*b, j as nat),
                        be.len() == m,
                        forall|q: int|
                            0 <= q < m ==> #[trigger] be[q] == (
                                j as nat,
                                targets.blocks@[q].0 as nat,
                                signed_decimal(targets.values@[q] as int),
                            ),
                        k <= m,
                        m <= targets.values@.len(),
                        m <= targets.blocks@.len(),
                        forall|q: int| 0 <= q < targets.blocks@.len() ==> (#[trigger] targets.blocks@[q]).0 < n,
                        graph_nodes(g) == body.basic_blocks@.map_values(
                            |b: BasicBlockData| node_label(b),
                        ),
                        graph_edges(g) == before + block_edges(*b, j as nat).subrange(0, k as int),
                    decreases m - k,
                {
                    if ecount >= u32::MAX as usize {
                        proof {
                            assert(edges_upto(*body, j + 1) == before + be);
                            lemma_edges_upto_grows(*body, j + 1, n as int);
                        }
                        return None;
                    }
                    let mut label = String::new();
                    push_i128(&mut label, targets.values[k]);
                    add_edge(&mut g, j, targets.blocks[k].0, label);
                    ecount = ecount + 1;
                    k = k + 1;
                    assert(graph_edges(g) =~= before + block_edges(*b, j as nat).subrange(0, k as int));
                }
                assert(block_edges(*b, j as nat).subrange(0, m as int) =~= block_edges(*b, j as nat));
            },
            _ => {},
        }
        j = j + 1;
        assert(graph_edges(g) =~= edges_upto(*body, j as int));
    }
    Some(g)
}

} // verus!
