//! Lowering of the syntax tree to the control flow graph.
use vstd::prelude::*;
use std::rc::Rc;
use crate::ast::{
    BinOpKind, Block, Expr, ExprKind, Node, NodeKind, SExpr, SNode, SStmt, StmtKind,
    UnaryOpKind,
};
use crate::hir::{
    MBlock, MGraph, MLocal, MOperand, MRvalue, MStmt, MTerm, graph_model, BasicBlock, BasicBlockData, BinOp, Body, Const, LocalDecl, LocalInfo, Operand, Place, Rvalue,
    Statement, SwitchTargets, Terminator, UnOp, block_ok, operand_ok, statement_ok, terminator_ok,
    place_ok, share,
};
use crate::types::{PrimitiveType, Type};

verus! {

/// The graph operator of a source operator; `&&` and `||` have none.
pub open spec fn spec_binop(op: BinOpKind) -> Option<BinOp> {
    match op {
        BinOpKind::Plus => Some(BinOp::Add),
        BinOpKind::Minus => Some(BinOp::Sub),
        BinOpKind::Multiply => Some(BinOp::Mul),
        BinOpKind::Divide => Some(BinOp::Div),
        BinOpKind::Modulo => Some(BinOp::Rem),
        BinOpKind::BitXor => Some(BinOp::BitXor),
        BinOpKind::BitAnd => Some(BinOp::BitAnd),
        BinOpKind::BitOr => Some(BinOp::BitOr),
        BinOpKind::ShiftLeft => Some(BinOp::ShiftLeft),
        BinOpKind::ShiftRight => Some(BinOp::ShiftRight),
        BinOpKind::Eq => Some(BinOp::Eq),
        BinOpKind::Ne => Some(BinOp::Ne),
        BinOpKind::Lt => Some(BinOp::Lt),
        BinOpKind::Gt => Some(BinOp::Gt),
        BinOpKind::Le => Some(BinOp::Le),
        BinOpKind::Ge => Some(BinOp::Ge),
        BinOpKind::And => None,
        BinOpKind::Or => None,
    }
}

/// The graph operator of a prefix operator; only `-` and `!` have one.
pub open spec fn spec_unop(op: UnaryOpKind) -> Option<UnOp> {
    match op {
        UnaryOpKind::Negate => Some(UnOp::Neg),
        UnaryOpKind::Not => Some(UnOp::Not),
        _ => None,
    }
}

/// Whether lowering supports an expression: literals, the supported
/// operators, `if`, and blocks, but no variable reads.
pub open spec fn expr_lowerable(e: SExpr) -> bool
    decreases e,
{
    match e {
        SExpr::Literal(_) => true,
        SExpr::Path(_) => false,
        SExpr::Unary(op, x) => spec_unop(op) is Some && expr_lowerable(*x),
        SExpr::Binary(l, op, r) => spec_binop(op) is Some && expr_lowerable(*l) && expr_lowerable(
            *r,
        ),
        SExpr::If(c, b, e) => expr_lowerable(*c) && block_lowerable(b) && match e {
            Some(x) => expr_lowerable(*x),
            None => true,
        },
        SExpr::Block(b) => block_lowerable(b),
    }
}

/// A block is lowered when it is empty or holds one tail expression; `let`,
/// expression statements and items are not lowered.
pub open spec fn block_lowerable(ss: Seq<SStmt>) -> bool
    decreases ss,
{
    ss.len() == 0 || (ss.len() == 1 && match ss[0] {
        SStmt::Expr(e) => expr_lowerable(e),
        _ => false,
    })
}

pub open spec fn node_lowerable(n: SNode) -> bool {
    &&& n.name is Some
    &&& n.body matches Some(b) && block_lowerable(b)
}

/// `g` with statement `st` appended to block `b`.
pub open spec fn with_stmt(g: MGraph, b: nat, st: MStmt) -> MGraph {
    MGraph {
        blocks: g.blocks.update(b as int, MBlock { stmts: g.blocks[b as int].stmts.push(st), term: g.blocks[b as int].term }),
        ..g
    }
}

/// `g` with the terminator of block `b` set to `t`.
pub open spec fn with_term(g: MGraph, b: nat, t: MTerm) -> MGraph {
    MGraph {
        blocks: g.blocks.update(b as int, MBlock { stmts: g.blocks[b as int].stmts, term: Some(t) }),
        ..g
    }
}

/// `g` with a new, empty, open block.
pub open spec fn with_block(g: MGraph) -> MGraph {
    MGraph { blocks: g.blocks.push(MBlock { stmts: Seq::empty(), term: None }), ..g }
}

/// `g` with a new, immutable local.
pub open spec fn with_local(g: MGraph, ty: Type, user: Option<Seq<char>>) -> MGraph {
    MGraph { locals: g.locals.push(MLocal { mutable: false, ty, user }), ..g }
}

pub open spec fn i1() -> Type {
    Type::Primitive(PrimitiveType::I1)
}

/// Lowering of an expression into block `tb`, assigning its value to local
/// `tp` of type `ty`: the graph after it and the block where control lands.
pub open spec fn lower_expr(e: SExpr, g: MGraph, tb: nat, tp: nat, ty: Type) -> Option<(MGraph, nat)>
    decreases e,
{
    match e {
        SExpr::Literal(v) => {
            let g1 = MGraph { consts: g.consts.push((ty, v)), ..g };
            Some((with_stmt(g1, tb, MStmt { place: tp, rvalue: MRvalue::Use(MOperand::Const(ty, v)) }), tb))
        },
        SExpr::Path(_) => None,
        SExpr::Unary(op, x) => match spec_unop(op) {
            Some(u) => match lower_expr(*x, g, tb, tp, ty) {
                Some((g1, b)) => Some(
                    (with_stmt(g1, b, MStmt { place: tp, rvalue: MRvalue::Unary(u, MOperand::Copy(tp)) }), b),
                ),
                None => None,
            },
            None => None,
        },
        SExpr::Binary(l, op, r) => match spec_binop(op) {
            Some(h) => {
                let lp = g.locals.len();
                let g1 = with_local(with_local(g, ty, None), ty, None);
                match lower_expr(*l, g1, tb, lp, ty) {
                    Some((g2, lb)) => match lower_expr(*r, g2, lb, lp + 1, ty) {
                        Some((g3, rb)) => Some(
                            (
                                with_stmt(
                                    g3,
                                    rb,
                                    MStmt {
                                        place: tp,
                                        rvalue: MRvalue::Binary(h, MOperand::Copy(lp), MOperand::Copy(lp + 1)),
                                    },
                                ),
                                rb,
                            ),
                        ),
                        None => None,
                    },
                    None => None,
                }
            },
            None => None,
        },
        SExpr::Block(ss) => lower_block(ss, g, tb, tp, ty),
        SExpr::If(c, b, e) => {
            let then_bb = g.blocks.len();
            let g1 = with_block(g);
            let else_bb: nat = if e is Some { g1.blocks.len() } else { 0 };
            let g2 = if e is Some { with_block(g1) } else { g1 };
            let end_bb = g2.blocks.len();
            let g3 = with_block(g2);
            let cp = g3.locals.len();
            let g4 = with_local(g3, i1(), None);
            match lower_expr(*c, g4, tb, cp, i1()) {
                Some((g5, cb)) => {
                    let false_bb = if e is Some { else_bb } else { end_bb };
                    let g6 = with_term(g5, cb, MTerm::Switch(MOperand::Copy(cp), seq![0i128, 1i128], seq![then_bb, false_bb]));
                    match lower_block(b, g6, then_bb, tp, ty) {
                        Some((g7, tbb)) => {
                            let g8 = with_term(g7, tbb, MTerm::Goto(end_bb));
                            match e {
                                Some(x) => match lower_expr(*x, g8, else_bb, tp, ty) {
                                    Some((g9, eb)) => Some((with_term(g9, eb, MTerm::Goto(end_bb)), end_bb)),
                                    None => None,
                                },
                                None => Some((g8, end_bb)),
                            }
                        },
                        None => None,
                    }
                },
                None => None,
            }
        },
    }
}

/// Lowering of a block: nothing when empty, its tail expression when it
/// holds only that.
pub open spec fn lower_block(ss: Seq<SStmt>, g: MGraph, tb: nat, tp: nat, ty: Type) -> Option<(MGraph, nat)>
    decreases ss,
{
    if ss.len() == 0 {
        Some((g, tb))
    } else if ss.len() == 1 {
        match ss[0] {
            SStmt::Expr(e) => lower_expr(e, g, tb, tp, ty),
            _ => None,
        }
    } else {
        None
    }
}

/// The locals of the parameters, appended in order.
pub open spec fn with_params(g: MGraph, ps: Seq<(Seq<char>, Type)>) -> MGraph
    decreases ps.len(),
{
    if ps.len() == 0 {
        g
    } else {
        let last = ps.last();
        with_local(with_params(g, ps.drop_last()), last.1, Some(last.0))
    }
}

/// Lowering of a function: the return slot `retval` and the parameters,
/// an entry block, the body lowered as the value of the return slot, and
/// `Return` where control lands.
pub open spec fn lower_fn(n: SNode) -> Option<MGraph> {
    match n.body {
        Some(body) => {
            let g0 = MGraph { blocks: Seq::empty(), locals: Seq::empty(), consts: Seq::empty() };
            let g1 = with_params(with_local(g0, n.ret, Some("retval"@)), n.params);
            let g2 = with_block(g1);
            match lower_block(body, g2, 0, 0, n.ret) {
                Some((g3, bb)) => Some(with_term(g3, bb, MTerm::Return)),
                None => None,
            }
        },
        None => None,
    }
}

/// Every successor of `t` is at index `n` or above.
pub open spec fn targets_from(t: Terminator, n: nat) -> bool {
    forall|k: int| 0 <= k < t.spec_successors().len() ==> (#[trigger] t.spec_successors()[k]).0 >= n
}

pub open spec fn has_successor(t: Option<Terminator>, b: usize) -> bool {
    match t {
        Some(t) => exists|k: int| 0 <= k < t.spec_successors().len() && (#[trigger] t.spec_successors()[k]).0 == b,
        None => false,
    }
}

struct Builder {
    basic_blocks: Vec<BasicBlockData>,
    local_decls: Vec<LocalDecl>,
    consts: Vec<Rc<Const>>,
}

impl Builder {
    spec fn model(&self) -> MGraph {
        graph_model(self.basic_blocks@, self.local_decls@, self.consts@)
    }

    spec fn wf(&self) -> bool {
        &&& forall|i: int| 0 <= i < self.local_decls@.len() ==> !(#[trigger] self.local_decls@[i]).mutable
        &&& forall|j: int|
            0 <= j < self.basic_blocks@.len() ==> block_ok(
                #[trigger] self.basic_blocks@[j],
                self.local_decls@.len(),
                self.basic_blocks@.len(),
            )
    }

    /// What lowering into `target` and landing in `bb` leaves: blocks and
    /// locals only grow; blocks before it other than `target` are
    /// untouched; `bb` is open; every other new block, and `target` when
    /// control left it, is terminated, and jumps only to new blocks.
    spec fn lowered(old: Builder, new: Builder, target: int, bb: int) -> bool {
        &&& new.wf()
        &&& old.local_decls@.len() <= new.local_decls@.len()
        &&& forall|i: int| 0 <= i < old.local_decls@.len() ==> new.local_decls@[i] == old.local_decls@[i]
        &&& old.basic_blocks@.len() <= new.basic_blocks@.len()
        &&& 0 <= bb < new.basic_blocks@.len()
        &&& (bb == target || bb >= old.basic_blocks@.len())
        &&& new.basic_blocks@[bb].terminator is None
        &&& forall|j: int|
            0 <= j < old.basic_blocks@.len() && j != target ==> new.basic_blocks@[j]
                == old.basic_blocks@[j]
        &&& forall|j: int|
            0 <= j < new.basic_blocks@.len() && j != bb && (j >= old.basic_blocks@.len() || j
                == target) ==> ((#[trigger] new.basic_blocks@[j]).terminator matches Some(t)
                && targets_from(t, old.basic_blocks@.len()))
    }

    /// The shape that lowering an `if` leaves: control lands in a new,
    /// empty block, which only `Goto`s from the arms reach (and, without an
    /// else arm, the false edge of the condition's switch).
    spec fn merge_block(old: Builder, new: Builder, bb: int, has_else: bool) -> bool {
        &&& bb >= old.basic_blocks@.len()
        &&& new.basic_blocks@[bb].statements@.len() == 0
        &&& forall|j: int|
            0 <= j < new.basic_blocks@.len() && has_successor(
                (#[trigger] new.basic_blocks@[j]).terminator,
                bb as usize,
            ) ==> new.basic_blocks@[j].terminator == Some(
                Terminator::Goto { target: BasicBlock(bb as usize) },
            ) || (!has_else && new.basic_blocks@[j].terminator matches Some(
                Terminator::SwitchInt { .. },
            ))
    }

    fn new() -> (r: Builder)
        ensures
            r.wf(),
            r.basic_blocks@.len() == 0,
            r.local_decls@.len() == 0,
            r.consts@.len() == 0,
    {
        Builder { basic_blocks: Vec::new(), local_decls: Vec::new(), consts: Vec::new() }
    }

    /// Appends an empty, open block.
    fn new_block(&mut self) -> (r: usize)
        requires
            old(self).wf(),
        ensures
            final(self).wf(),
            r == old(self).basic_blocks@.len(),
            final(self).basic_blocks@.len() == r + 1,
            forall|j: int| 0 <= j < r ==> final(self).basic_blocks@[j] == old(self).basic_blocks@[j],
            final(self).basic_blocks@[r as int].statements@.len() == 0,
            final(self).basic_blocks@[r as int].terminator is None,
            final(self).local_decls == old(self).local_decls,
            final(self).model() == with_block(old(self).model()),
    {
        let ghost n = self.basic_blocks@.len();
        self.basic_blocks.push(BasicBlockData { statements: Vec::new(), terminator: None });
        assert(self.basic_blocks@.last().statements@.map_values(|s: Statement| s.model()) =~= Seq::<MStmt>::empty());
        assert(self.model().blocks =~= with_block(old(self).model()).blocks);
        assert forall|j: int| 0 <= j < self.basic_blocks@.len() implies block_ok(
            #[trigger] self.basic_blocks@[j],
            self.local_decls@.len(),
            self.basic_blocks@.len(),
        ) by {
            if j < n {
                lemma_block_ok_grows(self.basic_blocks@[j], self.local_decls@.len(), n, self.local_decls@.len(), n + 1);
            }
        }
        self.basic_blocks.len() - 1
    }

    /// Appends a local and returns its place.
    fn new_local(&mut self, ty: Type, local_info: LocalInfo) -> (r: Place)
        requires
            old(self).wf(),
        ensures
            final(self).wf(),
            r == Place::Local(old(self).local_decls@.len() as usize),
            crate::hir::place_index(r) == old(self).local_decls@.len(),
            final(self).local_decls@.len() == old(self).local_decls@.len() + 1,
            final(self).local_decls@.drop_last() == old(self).local_decls@,
            final(self).local_decls@.last().ty == ty,
            final(self).local_decls@.last().local_info == local_info,
            final(self).basic_blocks == old(self).basic_blocks,
            final(self).model() == with_local(
                old(self).model(),
                ty,
                match local_info {
                    LocalInfo::User(n) => Some(n@),
                    LocalInfo::Temp => None,
                },
            ),
    {
        let ghost n = self.local_decls@.len();
        self.local_decls.push(LocalDecl { mutable: false, ty, local_info });
        assert(self.model().locals =~= old(self).model().locals.push(self.local_decls@.last().model()));
        assert(self.local_decls@.drop_last() =~= old(self).local_decls@);
        assert forall|j: int| 0 <= j < self.basic_blocks@.len() implies block_ok(
            #[trigger] self.basic_blocks@[j],
            self.local_decls@.len(),
            self.basic_blocks@.len(),
        ) by {
            lemma_block_ok_grows(self.basic_blocks@[j], n, self.basic_blocks@.len(), n + 1, self.basic_blocks@.len());
        }
        Place::Local(self.local_decls.len() - 1)
    }
}

pub proof fn lemma_block_ok_grows(b: BasicBlockData, n1: nat, m1: nat, n2: nat, m2: nat)
    requires
        block_ok(b, n1, m1),
        n1 <= n2,
        m1 <= m2,
    ensures
        block_ok(b, n2, m2),
{
    assert forall|k: int| 0 <= k < b.statements@.len() implies statement_ok(
        #[trigger] b.statements@[k],
        n2,
    ) by {
        assert(statement_ok(b.statements@[k], n1));
    }
    match b.terminator {
        Some(t) => {
            assert(terminator_ok(t, n1, m1));
            match t {
                Terminator::Call { func, args, destination, .. } => {
                    assert forall|k: int| 0 <= k < args@.len() implies operand_ok(
                        #[trigger] args@[k],
                        n2,
                    ) by {
                        assert(operand_ok(args@[k], n1));
                    }
                },
                _ => {},
            }
        },
        None => {},
    }
}


fn fail<T>(msg: &str) -> (r: Result<T, String>)
    ensures
        r matches Err(m) && m@ == msg@,
{
    Err(msg.to_owned())
}

fn binop_of(op: BinOpKind) -> (r: Option<BinOp>)
    ensures
        r == spec_binop(op),
{
    match op {
        BinOpKind::Plus => Some(BinOp::Add),
        BinOpKind::Minus => Some(BinOp::Sub),
        BinOpKind::Multiply => Some(BinOp::Mul),
        BinOpKind::Divide => Some(BinOp::Div),
        BinOpKind::Modulo => Some(BinOp::Rem),
        BinOpKind::BitXor => Some(BinOp::BitXor),
        BinOpKind::BitAnd => Some(BinOp::BitAnd),
        BinOpKind::BitOr => Some(BinOp::BitOr),
        BinOpKind::ShiftLeft => Some(BinOp::ShiftLeft),
        BinOpKind::ShiftRight => Some(BinOp::ShiftRight),
        BinOpKind::Eq => Some(BinOp::Eq),
        BinOpKind::Ne => Some(BinOp::Ne),
        BinOpKind::Lt => Some(BinOp::Lt),
        BinOpKind::Gt => Some(BinOp::Gt),
        BinOpKind::Le => Some(BinOp::Le),
        BinOpKind::Ge => Some(BinOp::Ge),
        BinOpKind::And => None,
        BinOpKind::Or => None,
    }
}

fn unop_of(op: UnaryOpKind) -> (r: Option<UnOp>)
    ensures
        r == spec_unop(op),
{
    match op {
        UnaryOpKind::Negate => Some(UnOp::Neg),
        UnaryOpKind::Not => Some(UnOp::Not),
        _ => None,
    }
}

proof fn lemma_lowered_trans(a: Builder, b: Builder, c: Builder, t: int, x: int, y: int)
    requires
        Builder::lowered(a, b, t, x),
        Builder::lowered(b, c, x, y),
    ensures
        Builder::lowered(a, c, t, y),
{
    assert forall|j: int|
        0 <= j < c.basic_blocks@.len() && j != y && (j >= a.basic_blocks@.len() || j == t) implies (
    (#[trigger] c.basic_blocks@[j]).terminator matches Some(tm) && targets_from(
        tm,
        a.basic_blocks@.len(),
    )) by {
        if j >= b.basic_blocks@.len() || j == x {
        } else {
            assert(b.basic_blocks@[j].terminator is Some);
        }
    }
}

impl Builder {
    proof fn lemma_lowered_refl(&self, t: int)
        requires
            self.wf(),
            0 <= t < self.basic_blocks@.len(),
            self.basic_blocks@[t].terminator is None,
        ensures
            Builder::lowered(*self, *self, t, t),
    {
    }

    /// Appends a statement to block `bb`.
    fn push_statement(&mut self, bb: usize, st: Statement)
        requires
            old(self).wf(),
            bb < old(self).basic_blocks@.len(),
            statement_ok(st, old(self).local_decls@.len()),
        ensures
            final(self).wf(),
            final(self).local_decls == old(self).local_decls,
            final(self).basic_blocks@.len() == old(self).basic_blocks@.len(),
            forall|j: int|
                0 <= j < old(self).basic_blocks@.len() && j != bb ==> final(self).basic_blocks@[j]
                    == old(self).basic_blocks@[j],
            final(self).basic_blocks@[bb as int].statements@ == old(
                self,
            ).basic_blocks@[bb as int].statements@.push(st),
            final(self).basic_blocks@[bb as int].terminator == old(
                self,
            ).basic_blocks@[bb as int].terminator,
            final(self).consts == old(self).consts,
            final(self).model() == with_stmt(old(self).model(), bb as nat, st.model()),
    {
        let ghost stm = st.model();
        let mut data = self.basic_blocks.remove(bb);
        data.statements.push(st);
        self.basic_blocks.insert(bb, data);
        assert(self.basic_blocks@[bb as int].statements@.map_values(|s: Statement| s.model()) =~= old(self).basic_blocks@[bb as int].statements@.map_values(|s: Statement| s.model()).push(stm));
        assert(self.model().blocks =~= with_stmt(old(self).model(), bb as nat, stm).blocks);
        assert forall|j: int| 0 <= j < self.basic_blocks@.len() implies block_ok(
            #[trigger] self.basic_blocks@[j],
            self.local_decls@.len(),
            self.basic_blocks@.len(),
        ) by {
            if j == bb {
                assert(block_ok(old(self).basic_blocks@[j], self.local_decls@.len(), self.basic_blocks@.len()));
                assert forall|k: int| 0 <= k < self.basic_blocks@[j].statements@.len() implies statement_ok(
                    #[trigger] self.basic_blocks@[j].statements@[k],
                    self.local_decls@.len(),
                ) by {
                    if k < old(self).basic_blocks@[j].statements@.len() {
                        assert(self.basic_blocks@[j].statements@[k] == old(self).basic_blocks@[j].statements@[k]);
                    }
                }
            } else {
                assert(self.basic_blocks@[j] == old(self).basic_blocks@[j]);
            }
        }
    }

    /// Sets the terminator of block `bb`.
    fn set_terminator(&mut self, bb: usize, t: Terminator)
        requires
            old(self).wf(),
            bb < old(self).basic_blocks@.len(),
            terminator_ok(t, old(self).local_decls@.len(), old(self).basic_blocks@.len()),
        ensures
            final(self).wf(),
            final(self).local_decls == old(self).local_decls,
            final(self).basic_blocks@.len() == old(self).basic_blocks@.len(),
            forall|j: int|
                0 <= j < old(self).basic_blocks@.len() && j != bb ==> final(self).basic_blocks@[j]
                    == old(self).basic_blocks@[j],
            final(self).basic_blocks@[bb as int].statements == old(
                self,
            ).basic_blocks@[bb as int].statements,
            final(self).basic_blocks@[bb as int].terminator == Some(t),
            final(self).consts == old(self).consts,
            final(self).model() == with_term(old(self).model(), bb as nat, t.model()),
    {
        let ghost tm = t.model();
        let mut data = self.basic_blocks.remove(bb);
        data.terminator = Some(t);
        self.basic_blocks.insert(bb, data);
        assert(self.model().blocks =~= with_term(old(self).model(), bb as nat, tm).blocks);
        assert forall|j: int| 0 <= j < self.basic_blocks@.len() implies block_ok(
            #[trigger] self.basic_blocks@[j],
            self.local_decls@.len(),
            self.basic_blocks@.len(),
        ) by {
            if j == bb {
                assert(block_ok(old(self).basic_blocks@[j], self.local_decls@.len(), self.basic_blocks@.len()));
            } else {
                assert(self.basic_blocks@[j] == old(self).basic_blocks@[j]);
            }
        }
    }

    /// Records a constant of type `ty` and yields its use.
    fn build_number(&mut self, value: String, ty: Type) -> (r: Rvalue)
        ensures
            r matches Rvalue::Use(Operand::Constant(c)) && c.ty == ty && c.value == value,
            final(self).basic_blocks == old(self).basic_blocks,
            final(self).local_decls == old(self).local_decls,
            final(self).model() == (MGraph { consts: old(self).model().consts.push((ty, value@)), ..old(self).model() }),
    {
        let ghost v = value@;
        let c = Rc::new(Const { ty, value });
        self.consts.push(share(&c));
        assert(self.model().consts =~= old(self).model().consts.push((ty, v)));
        Rvalue::Use(Operand::Constant(c))
    }
}


impl Builder {
    /// Lowers the statements of a block into `target_block`: the tail
    /// expression is assigned to `target_place`. Returns the block where
    /// control lands.
    fn build_blocks(
        &mut self,
        block: Block,
        target_block: usize,
        target_place: Place,
        target_type: Type,
    ) -> (r: Result<usize, String>)
        requires
            old(self).wf(),
            target_block < old(self).basic_blocks@.len(),
            old(self).basic_blocks@[target_block as int].terminator is None,
            place_ok(target_place, old(self).local_decls@.len()),
        ensures
            r is Ok <==> block_lowerable(block.model()),
            r matches Ok(bb) ==> Builder::lowered(*old(self), *final(self), target_block as int, bb as int),
            r matches Ok(bb) ==> lower_block(
                block.model(),
                old(self).model(),
                target_block as nat,
                crate::hir::place_index(target_place),
                target_type,
            ) == Some((final(self).model(), bb as nat)),
            r is Err ==> lower_block(
                block.model(),
                old(self).model(),
                target_block as nat,
                crate::hir::place_index(target_place),
                target_type,
            ) is None,
        decreases block,
    {
        let ghost m = block.model();
        proof {
            reveal_with_fuel(crate::ast::stmts_model, 2);
        }
        let mut stmts = block.stmts;
        if stmts.len() == 0 {
            proof {
                self.lemma_lowered_refl(target_block as int);
            }
            return Ok(target_block);
        }
        if stmts.len() != 1 {
            return fail("Only a tail expression is supported in a block");
        }
        let st = stmts.pop().unwrap();
        assert(m[0] == st.model());
        match st.kind {
            StmtKind::Expr(e) => self.build_expr(*e, target_block, target_place, target_type),
            StmtKind::Semi(_) => fail("Expression statements are not supported"),
            StmtKind::Let(_) => fail("Let statements are not supported"),
            StmtKind::Item(_) => fail("Nested items are not supported"),
        }
    }

    /// Lowers an `if`: new blocks for the arms and the merge, the
    /// condition into a boolean temporary and a switch on it, each arm
    /// ending with a jump to the merge block, where control lands.
    fn build_if(
        &mut self,
        expr: Expr,
        target_block: usize,
        target_place: Place,
        target_type: Type,
    ) -> (r: Result<usize, String>)
        requires
            old(self).wf(),
            target_block < old(self).basic_blocks@.len(),
            old(self).basic_blocks@[target_block as int].terminator is None,
            place_ok(target_place, old(self).local_decls@.len()),
            expr.kind is If,
        ensures
            r is Ok <==> expr_lowerable(expr.model()),
            r matches Ok(bb) ==> Builder::lowered(*old(self), *final(self), target_block as int, bb as int),
            r matches Ok(bb) ==> lower_expr(
                expr.model(),
                old(self).model(),
                target_block as nat,
                crate::hir::place_index(target_place),
                target_type,
            ) == Some((final(self).model(), bb as nat)),
            r is Err ==> lower_expr(
                expr.model(),
                old(self).model(),
                target_block as nat,
                crate::hir::place_index(target_place),
                target_type,
            ) is None,
            (r is Ok && expr.model() is If) ==> Builder::merge_block(
                *old(self),
                *final(self),
                r->Ok_0 as int,
                expr.model()->If_2 is Some,
            ),
        decreases expr, 0int,
    {
        let ghost m = expr.model();
        match expr.kind {
            ExprKind::If(c, b, e) => {
                let ghost s0 = *self;
                let ghost n = s0.basic_blocks@.len();
                let has_else = e.is_some();
                let then_bb = self.new_block();
                let else_bb: usize = if has_else {
                    self.new_block()
                } else {
                    0
                };
                let end_bb = self.new_block();
                let bool_type = Type::Primitive(PrimitiveType::I1);
                let cond_place = self.new_local(bool_type, LocalInfo::Temp);
                let ghost s1 = *self;
                assert(forall|j: int| 0 <= j < n ==> s1.basic_blocks@[j] == s0.basic_blocks@[j]);
                let cb = match self.build_expr(*c, target_block, cond_place, bool_type) {
                    Ok(b) => b,
                    Err(msg) => return Err(msg),
                };
                let false_bb = if has_else {
                    else_bb
                } else {
                    end_bb
                };
                let targets = SwitchTargets {
                    values: vec![0, 1],
                    blocks: vec![BasicBlock(then_bb), BasicBlock(false_bb)],
                };
                assert(targets.values@ =~= seq![0i128, 1i128]);
                assert(targets.blocks@.map_values(|b: BasicBlock| b.0 as nat) =~= seq![
                    then_bb as nat,
                    false_bb as nat,
                ]);
                let switch = Terminator::SwitchInt { value: Operand::Copy(cond_place), targets };
                assert(switch.spec_successors() =~= seq![BasicBlock(then_bb), BasicBlock(false_bb)]);
                assert(switch.model() == MTerm::Switch(
                    MOperand::Copy(crate::hir::place_index(cond_place)),
                    seq![0i128, 1i128],
                    seq![then_bb as nat, false_bb as nat],
                ));
                self.set_terminator(cb, switch);
                let tb = match self.build_blocks(*b, then_bb, target_place, target_type) {
                    Ok(b) => b,
                    Err(msg) => return Err(msg),
                };
                let goto = Terminator::Goto { target: BasicBlock(end_bb) };
                assert(goto.spec_successors() =~= seq![BasicBlock(end_bb)]);
                self.set_terminator(tb, goto);
                match e {
                    Some(x) => {
                        let eb = match self.build_expr(*x, else_bb, target_place, target_type) {
                            Ok(b) => b,
                            Err(msg) => return Err(msg),
                        };
                        let goto2 = Terminator::Goto { target: BasicBlock(end_bb) };
                        assert(goto2.spec_successors() =~= seq![BasicBlock(end_bb)]);
                        self.set_terminator(eb, goto2);
                    },
                    None => {},
                }
                Ok(end_bb)
            },
            _ => fail("Expected an `if` expression"),
        }
    }

    /// Lowers a binary operation: each operand into a new temporary, then
    /// the operation on the two.
    fn build_binary(
        &mut self,
        expr: Expr,
        target_block: usize,
        target_place: Place,
        target_type: Type,
    ) -> (r: Result<usize, String>)
        requires
            old(self).wf(),
            target_block < old(self).basic_blocks@.len(),
            old(self).basic_blocks@[target_block as int].terminator is None,
            place_ok(target_place, old(self).local_decls@.len()),
            expr.kind is Binary,
        ensures
            r is Ok <==> expr_lowerable(expr.model()),
            r matches Ok(bb) ==> Builder::lowered(*old(self), *final(self), target_block as int, bb as int),
            r matches Ok(bb) ==> lower_expr(
                expr.model(),
                old(self).model(),
                target_block as nat,
                crate::hir::place_index(target_place),
                target_type,
            ) == Some((final(self).model(), bb as nat)),
            r is Err ==> lower_expr(
                expr.model(),
                old(self).model(),
                target_block as nat,
                crate::hir::place_index(target_place),
                target_type,
            ) is None,
            (r is Ok && expr.model() is If) ==> Builder::merge_block(
                *old(self),
                *final(self),
                r->Ok_0 as int,
                expr.model()->If_2 is Some,
            ),
        decreases expr, 0int,
    {
        let ghost m = expr.model();
        match expr.kind {
            ExprKind::Binary(l, op, r) => {
                let hop = match binop_of(op) {
                    Some(h) => h,
                    None => return fail("Logical operators are not supported"),
                };
                let ghost s0 = *self;
                let lplace = self.new_local(target_type, LocalInfo::Temp);
                let rplace = self.new_local(target_type, LocalInfo::Temp);
                let ghost s1 = *self;
                let ghost lm = (*l).model();
                let ghost rm = (*r).model();
                let ghost lp = s0.model().locals.len();
                proof {
                    assert(Builder::lowered(s0, s1, target_block as int, target_block as int));
                    assert(s1.model() == with_local(with_local(s0.model(), target_type, None), target_type, None));
                    assert(lp == s0.local_decls@.len());
                    assert(m == SExpr::Binary(Box::new(lm), op, Box::new(rm)));
                }
                let lb = match self.build_expr(*l, target_block, lplace, target_type) {
                    Ok(b) => b,
                    Err(msg) => {
                        assert(lower_expr(lm, s1.model(), target_block as nat, lp, target_type) is None);
                        return Err(msg);
                    },
                };
                let ghost s2 = *self;
                let rb = match self.build_expr(*r, lb, rplace, target_type) {
                    Ok(b) => b,
                    Err(msg) => {
                        assert(lower_expr(rm, s2.model(), lb as nat, lp + 1, target_type) is None);
                        return Err(msg);
                    },
                };
                let ghost s3 = *self;
                self.push_statement(
                    rb,
                    Statement::Assign(
                        Box::new(target_place),
                        Box::new(
                            Rvalue::BinaryOp(
                                hop,
                                Box::new(Operand::Copy(lplace)),
                                Box::new(Operand::Copy(rplace)),
                            ),
                        ),
                    ),
                );
                proof {
                    lemma_lowered_trans(s0, s1, s2, target_block as int, target_block as int, lb as int);
                    lemma_lowered_trans(s0, s2, s3, target_block as int, lb as int, rb as int);
                    lemma_lowered_trans(s0, s3, *self, target_block as int, rb as int, rb as int);
                }
                Ok(rb)
            },
            _ => fail("Expected a binary expression"),
        }
    }

    /// Lowers `expr` into `target_block`, assigning its value to
    /// `target_place`. Returns the block where control lands.
    fn build_expr(
        &mut self,
        expr: Expr,
        target_block: usize,
        target_place: Place,
        target_type: Type,
    ) -> (r: Result<usize, String>)
        requires
            old(self).wf(),
            target_block < old(self).basic_blocks@.len(),
            old(self).basic_blocks@[target_block as int].terminator is None,
            place_ok(target_place, old(self).local_decls@.len()),
        ensures
            r is Ok <==> expr_lowerable(expr.model()),
            r matches Ok(bb) ==> Builder::lowered(*old(self), *final(self), target_block as int, bb as int),
            r matches Ok(bb) ==> lower_expr(
                expr.model(),
                old(self).model(),
                target_block as nat,
                crate::hir::place_index(target_place),
                target_type,
            ) == Some((final(self).model(), bb as nat)),
            r is Err ==> lower_expr(
                expr.model(),
                old(self).model(),
                target_block as nat,
                crate::hir::place_index(target_place),
                target_type,
            ) is None,
            (r is Ok && expr.model() is If) ==> Builder::merge_block(
                *old(self),
                *final(self),
                r->Ok_0 as int,
                expr.model()->If_2 is Some,
            ),
        decreases expr, 1int,
    {
        let ghost m = expr.model();
        match expr.kind {
            ExprKind::Literal(v) => {
                let rv = self.build_number(v, target_type);
                self.push_statement(
                    target_block,
                    Statement::Assign(Box::new(target_place), Box::new(rv)),
                );
                Ok(target_block)
            },
            ExprKind::Path(_) => fail("Variable reads are not supported"),
            ExprKind::Unary(op, e) => {
                let uop = match unop_of(op) {
                    Some(u) => u,
                    None => return fail("Unsupported prefix operator"),
                };
                let ghost s0 = *self;
                let b = match self.build_expr(*e, target_block, target_place, target_type) {
                    Ok(b) => b,
                    Err(msg) => return Err(msg),
                };
                let ghost s1 = *self;
                self.push_statement(
                    b,
                    Statement::Assign(
                        Box::new(target_place),
                        Box::new(Rvalue::UnaryOp(uop, Box::new(Operand::Copy(target_place)))),
                    ),
                );
                proof {
                    lemma_lowered_trans(s0, s1, *self, target_block as int, b as int, b as int);
                }
                Ok(b)
            },
            ExprKind::Binary(l, op, r) => {
                let e = Expr { kind: ExprKind::Binary(l, op, r) };
                self.build_binary(e, target_block, target_place, target_type)
            },
            ExprKind::Block(b) => self.build_blocks(*b, target_block, target_place, target_type),
            ExprKind::If(c, b, e) => {
                let e = Expr { kind: ExprKind::If(c, b, e) };
                self.build_if(e, target_block, target_place, target_type)
            },
        }
    }
}


/// The local declarations that lowering starts from: the return slot, then
/// one user local per parameter.
pub open spec fn prelude_ok(b: Body, n: SNode) -> bool {
    &&& b.local_decls@.len() >= 1 + n.params.len()
    &&& b.local_decls@[0].ty == n.ret
    &&& forall|i: int|
        0 <= i < n.params.len() ==> {
            &&& (#[trigger] b.local_decls@[1 + i]).ty == n.params[i].1
            &&& b.local_decls@[1 + i].local_info matches LocalInfo::User(id) && id@ == n.params[i].0
        }
}

/// Lowers one function item to its control flow graph.
///
/// Fails exactly when the item has no name or no body, or uses a construct
/// that lowering does not support (variable reads, `let`, expression
/// statements, logical operators, references).
pub fn hir_build(root: Node) -> (r: Result<Body, String>)
    ensures
        r is Ok <==> node_lowerable(root.model()),
        r matches Ok(b) ==> {
            &&& b.wf()
            &&& Some(b.name@) == root.model().name
            &&& b.arg_count == root.model().params.len()
            &&& prelude_ok(b, root.model())
            &&& forall|i: int| 0 <= i < b.local_decls@.len() ==> !(#[trigger] b.local_decls@[i]).mutable
            &&& lower_fn(root.model()) == Some(b.model())
        },
{
    let builder = Builder::new();
    builder.build_fn(root)
}

impl Builder {
    fn build_fn(self, node: Node) -> (r: Result<Body, String>)
        requires
            self.basic_blocks@.len() == 0,
            self.local_decls@.len() == 0,
            self.consts@.len() == 0,
            self.wf(),
        ensures
            r is Ok <==> node_lowerable(node.model()),
            r matches Ok(b) ==> {
                &&& b.wf()
                &&& Some(b.name@) == node.model().name
                &&& b.arg_count == node.model().params.len()
                &&& prelude_ok(b, node.model())
                &&& forall|i: int| 0 <= i < b.local_decls@.len() ==> !(#[trigger] b.local_decls@[i]).mutable
                &&& lower_fn(node.model()) == Some(b.model())
            },
    {
        let ghost nm = node.model();
        let mut bld = self;
        let func = match node.kind {
            NodeKind::Fn(f) => f,
        };
        let f = *func;
        let body = match f.body {
            Some(b) => b,
            None => return fail("Function body is missing"),
        };
        let name = match node.identifier {
            Some(n) => n,
            None => return fail("Function name is missing"),
        };
        let ret = f.sig.return_type;
        let inputs = f.sig.inputs;
        let ghost g0 = MGraph { blocks: Seq::empty(), locals: Seq::empty(), consts: Seq::empty() };
        assert(bld.model().blocks =~= g0.blocks);
        assert(bld.model().locals =~= g0.locals);
        assert(bld.model().consts =~= g0.consts);
        let rv = "retval".to_owned();
        bld.new_local(ret, LocalInfo::User(rv));
        let ghost g1 = with_local(g0, nm.ret, Some("retval"@));
        assert(nm.params.subrange(0, 0) =~= Seq::<(Seq<char>, Type)>::empty());
        let mut i: usize = 0;
        while i < inputs.len()
            invariant
                bld.wf(),
                bld.basic_blocks@.len() == 0,
                i <= inputs@.len(),
                bld.local_decls@.len() == 1 + i,
                bld.local_decls@[0].ty == ret,
                bld.local_decls@[0].local_info matches LocalInfo::User(n) && n@ == "retval"@,
                bld.model() == with_params(g1, nm.params.subrange(0, i as int)),
                ret == nm.ret,
                inputs@.map_values(|p: crate::ast::Param| (crate::ast::pat_name(p.pat), p.ty))
                    == nm.params,
                forall|k: int|
                    0 <= k < i ==> {
                        &&& (#[trigger] bld.local_decls@[1 + k]).ty == nm.params[k].1
                        &&& bld.local_decls@[1 + k].local_info matches LocalInfo::User(id) && id@
                            == nm.params[k].0
                    },
            decreases inputs@.len() - i,
        {
            let p = &inputs[i];
            let id = p.id();
            assert(nm.params[i as int] == (crate::ast::pat_name(p.pat), p.ty));
            assert(id@ == crate::ast::pat_name(p.pat));
            let ghost before = bld.local_decls@;
            bld.new_local(p.ty, LocalInfo::User(id));
            assert forall|k: int| 0 <= k < i + 1 implies {
                &&& (#[trigger] bld.local_decls@[1 + k]).ty == nm.params[k].1
                &&& bld.local_decls@[1 + k].local_info matches LocalInfo::User(id) && id@
                    == nm.params[k].0
            } by {
                if k < i {
                    assert(bld.local_decls@[1 + k] == before[1 + k]);
                }
            }
            assert(bld.local_decls@[0] == before[0]);
            assert(nm.params.subrange(0, i + 1).drop_last() =~= nm.params.subrange(0, i as int));
            i = i + 1;
        }
        assert(nm.params.subrange(0, i as int) =~= nm.params);
        let entry = bld.new_block();
        let ghost s0 = bld;
        let bb = match bld.build_blocks(*body, entry, Place::Local(0), ret) {
            Ok(x) => x,
            Err(m) => return Err(m),
        };
        let ret_term = Terminator::Return;
        assert(ret_term.spec_successors() =~= Seq::empty());
        bld.set_terminator(bb, ret_term);
        Ok(
            Body {
                name,
                basic_blocks: bld.basic_blocks,
                local_decls: bld.local_decls,
                consts: bld.consts,
                arg_count: inputs.len(),
            },
        )
    }
}

} // verus!
