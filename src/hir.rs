//! The control flow graph: basic blocks of three-address statements over
//! typed locals, joined by terminators.
use vstd::prelude::*;
use std::rc::Rc;
use crate::types::Type;

verus! {

#[derive(Clone, Copy, Debug, PartialEq, Eq, Structural)]
pub enum BinOp {
    Add,
    Sub,
    Mul,
    Div,
    Rem,
    BitXor,
    BitAnd,
    BitOr,
    ShiftLeft,
    ShiftRight,
    Eq,
    Ne,
    Lt,
    Gt,
    Le,
    Ge,
}

#[derive(Clone, Copy, Debug, PartialEq, Eq, Structural)]
pub enum UnOp {
    Neg,
    Not,
}

/// A symbolic address: an index into the body's local declarations.
#[derive(Clone, Copy, Debug, PartialEq, Eq, Hash, Structural)]
pub enum Place {
    Local(usize),
}

/// A typed constant, with its literal text.
#[derive(Debug)]
pub struct Const {
    pub ty: Type,
    pub value: String,
}

/// Relies on `Rc::clone`: the clone shares the same constant.
#[verifier::external_body]
pub(crate) fn share(c: &Rc<Const>) -> (r: Rc<Const>)
    ensures
        r == *c,
{
    Rc::clone(c)
}

#[derive(Debug)]
pub enum Operand {
    Copy(Place),
    Move(Place),
    Constant(Rc<Const>),
}

#[derive(Debug)]
pub enum Rvalue {
    /// The operand unchanged.
    Use(Operand),
    BinaryOp(BinOp, Box<Operand>, Box<Operand>),
    UnaryOp(UnOp, Box<Operand>),
}

#[derive(Debug)]
pub enum Statement {
    Assign(Box<Place>, Box<Rvalue>),
}

/// The edges of a switch: `values[i]` goes to `blocks[i]`, the last block
/// is the default edge.
#[derive(Debug)]
pub struct SwitchTargets {
    pub values: Vec<i128>,
    pub blocks: Vec<BasicBlock>,
}

#[derive(Debug)]
pub enum Terminator {
    Goto { target: BasicBlock },
    /// A call of `func`; control goes on at `target`.
    Call { func: Operand, args: Vec<Operand>, destination: Place, target: BasicBlock },
    Return,
    /// Branches on the value of `value`.
    SwitchInt { value: Operand, targets: SwitchTargets },
}

/// Index of a basic block in the body.
#[derive(Clone, Copy, Debug, PartialEq, Eq, Hash, Structural)]
pub struct BasicBlock(pub usize);

impl Terminator {
    /// The blocks that control may reach next.
    pub open spec fn spec_successors(&self) -> Seq<BasicBlock> {
        match self {
            Terminator::Goto { target } => seq![*target],
            Terminator::Call { target, .. } => seq![*target],
            Terminator::Return => Seq::empty(),
            Terminator::SwitchInt { targets, .. } => targets.blocks@,
        }
    }

    /// The first successor; a `Return` has none.
    pub fn successor(&self) -> (r: BasicBlock)
        requires
            self.spec_successors().len() > 0,
        ensures
            r == self.spec_successors()[0],
    {
        match self {
            Terminator::Goto { target } => *target,
            Terminator::Call { target, .. } => *target,
            Terminator::SwitchInt { targets, .. } => targets.blocks[0],
            Terminator::Return => BasicBlock(0),
        }
    }

    pub fn successors(&self) -> (r: Vec<BasicBlock>)
        ensures
            r@ == self.spec_successors(),
    {
        match self {
            Terminator::Goto { target } => vec![*target],
            Terminator::Call { target, .. } => vec![*target],
            Terminator::Return => Vec::new(),
            Terminator::SwitchInt { targets, .. } => {
                let mut v: Vec<BasicBlock> = Vec::new();
                let mut i: usize = 0;
                while i < targets.blocks.len()
                    invariant
                        i <= targets.blocks@.len(),
                        v@ == targets.blocks@.subrange(0, i as int),
                    decreases targets.blocks@.len() - i,
                {
                    v.push(targets.blocks[i]);
                    i = i + 1;
                    assert(v@ =~= targets.blocks@.subrange(0, i as int));
                }
                assert(v@ =~= targets.blocks@);
                v
            },
        }
    }
}

/// Whether a local was named in the source or made by the compiler.
#[derive(Debug)]
pub enum LocalInfo {
    /// A user variable, a parameter, or the return slot.
    User(String),
    /// A compiler temporary.
    Temp,
}

#[derive(Debug)]
pub struct LocalDecl {
    pub mutable: bool,
    pub ty: Type,
    pub local_info: LocalInfo,
}

impl LocalDecl {
    pub fn size(&self) -> (r: usize)
        ensures
            r == self.ty.spec_size(),
    {
        self.ty.size()
    }
}

/// A node of the graph: statements, then one terminator once built.
#[derive(Debug)]
pub struct BasicBlockData {
    pub statements: Vec<Statement>,
    pub terminator: Option<Terminator>,
}

impl BasicBlockData {
    pub fn terminator(&self) -> (r: &Terminator)
        requires
            self.terminator is Some,
        ensures
            Some(*r) == self.terminator,
    {
        self.terminator.as_ref().unwrap()
    }
}

/// One lowered function.
#[derive(Debug)]
pub struct Body {
    /// The name of the function.
    pub name: String,
    /// The blocks; block 0 is the entry.
    pub basic_blocks: Vec<BasicBlockData>,
    /// The return slot, then the parameters, then locals and temporaries.
    pub local_decls: Vec<LocalDecl>,
    pub consts: Vec<Rc<Const>>,
    pub arg_count: usize,
}

pub open spec fn place_ok(p: Place, n: nat) -> bool {
    match p {
        Place::Local(i) => i < n,
    }
}

pub open spec fn operand_ok(o: Operand, n: nat) -> bool {
    match o {
        Operand::Copy(p) => place_ok(p, n),
        Operand::Move(p) => place_ok(p, n),
        Operand::Constant(_) => true,
    }
}

pub open spec fn rvalue_ok(r: Rvalue, n: nat) -> bool {
    match r {
        Rvalue::Use(o) => operand_ok(o, n),
        Rvalue::BinaryOp(_, a, b) => operand_ok(*a, n) && operand_ok(*b, n),
        Rvalue::UnaryOp(_, a) => operand_ok(*a, n),
    }
}

pub open spec fn statement_ok(s: Statement, n: nat) -> bool {
    match s {
        Statement::Assign(p, r) => place_ok(*p, n) && rvalue_ok(*r, n),
    }
}

/// Every block and local that the terminator names exists.
pub open spec fn terminator_ok(t: Terminator, nlocals: nat, nblocks: nat) -> bool {
    &&& forall|k: int|
        0 <= k < t.spec_successors().len() ==> (#[trigger] t.spec_successors()[k]).0 < nblocks
    &&& match t {
        Terminator::SwitchInt { value, targets } => operand_ok(value, nlocals),
        Terminator::Call { func, args, destination, .. } => operand_ok(func, nlocals) && place_ok(
            destination,
            nlocals,
        ) && forall|k: int| 0 <= k < args@.len() ==> operand_ok(#[trigger] args@[k], nlocals),
        _ => true,
    }
}

pub open spec fn block_ok(b: BasicBlockData, nlocals: nat, nblocks: nat) -> bool {
    &&& forall|k: int|
        0 <= k < b.statements@.len() ==> statement_ok(#[trigger] b.statements@[k], nlocals)
    &&& match b.terminator {
        Some(t) => terminator_ok(t, nlocals, nblocks),
        None => true,
    }
}

impl Body {
    /// The well-formedness of a lowered body: the return slot is a user
    /// local named `retval`; every block has a terminator; every block
    /// and local that is named exists.
    pub open spec fn wf(&self) -> bool {
        &&& self.local_decls@.len() > 0
        &&& self.local_decls@[0].local_info matches LocalInfo::User(n) && n@ == "retval"@
        &&& self.basic_blocks@.len() > 0
        &&& forall|j: int|
            0 <= j < self.basic_blocks@.len() ==> (#[trigger] self.basic_blocks@[j]).terminator is Some
        &&& forall|j: int|
            0 <= j < self.basic_blocks@.len() ==> block_ok(
                #[trigger] self.basic_blocks@[j],
                self.local_decls@.len(),
                self.basic_blocks@.len(),
            )
    }

    pub fn new(
        name: String,
        basic_blocks: Vec<BasicBlockData>,
        local_decls: Vec<LocalDecl>,
        consts: Vec<Rc<Const>>,
        arg_count: usize,
    ) -> (r: Body)
        ensures
            r.name == name,
            r.basic_blocks == basic_blocks,
            r.local_decls == local_decls,
            r.consts == consts,
            r.arg_count == arg_count,
    {
        Body { name, basic_blocks, local_decls, consts, arg_count }
    }

    pub open spec fn spec_operand_type(&self, o: Operand) -> Type {
        match o {
            Operand::Copy(Place::Local(i)) => self.local_decls@[i as int].ty,
            Operand::Move(Place::Local(i)) => self.local_decls@[i as int].ty,
            Operand::Constant(c) => c.ty,
        }
    }

    /// The type of an operand: the declared type of its local, or the
    /// constant's type.
    pub fn get_operand_type(&self, operand: &Operand) -> (r: Type)
        requires
            operand_ok(*operand, self.local_decls@.len()),
        ensures
            r == self.spec_operand_type(*operand),
    {
        match operand {
            Operand::Copy(Place::Local(i)) => self.local_decls[*i].ty,
            Operand::Move(Place::Local(i)) => self.local_decls[*i].ty,
            Operand::Constant(c) => c.ty,
        }
    }
}


/// The model of an operand: a local's index, or a constant's type and text.
pub ghost enum MOperand {
    Copy(nat),
    Move(nat),
    Const(Type, Seq<char>),
}

pub ghost enum MRvalue {
    Use(MOperand),
    Binary(BinOp, MOperand, MOperand),
    Unary(UnOp, MOperand),
}

/// The model of `place = rvalue`.
pub ghost struct MStmt {
    pub place: nat,
    pub rvalue: MRvalue,
}

pub ghost enum MTerm {
    Goto(nat),
    Switch(MOperand, Seq<i128>, Seq<nat>),
    Call(nat),
    Return,
}

pub ghost struct MBlock {
    pub stmts: Seq<MStmt>,
    pub term: Option<MTerm>,
}

/// The model of a local: whether it is mutable, its type, and its name
/// when it is a user local.
pub ghost struct MLocal {
    pub mutable: bool,
    pub ty: Type,
    pub user: Option<Seq<char>>,
}

/// The model of a graph under construction or built: blocks, locals and
/// constants.
pub ghost struct MGraph {
    pub blocks: Seq<MBlock>,
    pub locals: Seq<MLocal>,
    pub consts: Seq<(Type, Seq<char>)>,
}

pub open spec fn place_index(p: Place) -> nat {
    match p {
        Place::Local(i) => i as nat,
    }
}

impl Operand {
    pub open spec fn model(self) -> MOperand {
        match self {
            Operand::Copy(p) => MOperand::Copy(place_index(p)),
            Operand::Move(p) => MOperand::Move(place_index(p)),
            Operand::Constant(c) => MOperand::Const(c.ty, c.value@),
        }
    }
}

impl Rvalue {
    pub open spec fn model(self) -> MRvalue {
        match self {
            Rvalue::Use(o) => MRvalue::Use(o.model()),
            Rvalue::BinaryOp(op, a, b) => MRvalue::Binary(op, a.model(), b.model()),
            Rvalue::UnaryOp(op, a) => MRvalue::Unary(op, a.model()),
        }
    }
}

impl Statement {
    pub open spec fn model(self) -> MStmt {
        match self {
            Statement::Assign(p, r) => MStmt { place: place_index(*p), rvalue: r.model() },
        }
    }
}

impl Terminator {
    pub open spec fn model(self) -> MTerm {
        match self {
            Terminator::Goto { target } => MTerm::Goto(target.0 as nat),
            Terminator::Call { target, .. } => MTerm::Call(target.0 as nat),
            Terminator::Return => MTerm::Return,
            Terminator::SwitchInt { value, targets } => MTerm::Switch(
                value.model(),
                targets.values@,
                targets.blocks@.map_values(|b: BasicBlock| b.0 as nat),
            ),
        }
    }
}

impl BasicBlockData {
    pub open spec fn model(self) -> MBlock {
        MBlock {
            stmts: self.statements@.map_values(|s: Statement| s.model()),
            term: match self.terminator {
                Some(t) => Some(t.model()),
                None => None,
            },
        }
    }
}

impl LocalDecl {
    pub open spec fn model(self) -> MLocal {
        MLocal {
            mutable: self.mutable,
            ty: self.ty,
            user: match self.local_info {
                LocalInfo::User(n) => Some(n@),
                LocalInfo::Temp => None,
            },
        }
    }
}

pub open spec fn graph_model(
    blocks: Seq<BasicBlockData>,
    locals: Seq<LocalDecl>,
    consts: Seq<Rc<Const>>,
) -> MGraph {
    MGraph {
        blocks: blocks.map_values(|b: BasicBlockData| b.model()),
        locals: locals.map_values(|l: LocalDecl| l.model()),
        consts: consts.map_values(|c: Rc<Const>| (c.ty, c.value@)),
    }
}

impl Body {
    pub open spec fn model(self) -> MGraph {
        graph_model(self.basic_blocks@, self.local_decls@, self.consts@)
    }
}

} // verus!
