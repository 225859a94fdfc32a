//! The syntax tree, and its mathematical model.
use vstd::prelude::*;
use crate::types::Type;

verus! {

/// The kind of a literal.
#[derive(Clone, Copy, Debug, PartialEq, Eq, Structural)]
pub enum LiteralKind {
    Boolean,
    Char,
    Integer,
    Float,
    String,
    Byte,
    ByteString,
    ByteChar,
    RawString,
    RawByteString,
    RawChar,
    RawByteChar,
}

/// A binary operator as written in the source.
#[derive(Clone, Copy, Debug, PartialEq, Eq, Structural)]
pub enum BinOpKind {
    /// `+`
    Plus,
    /// `-`
    Minus,
    /// `*`
    Multiply,
    /// `/`
    Divide,
    /// `%`
    Modulo,
    /// `^`
    BitXor,
    /// `&`
    BitAnd,
    /// `|`
    BitOr,
    /// `<<`
    ShiftLeft,
    /// `>>`
    ShiftRight,
    /// `==`
    Eq,
    /// `!=`
    Ne,
    /// `<`
    Lt,
    /// `<=`
    Le,
    /// `>`
    Gt,
    /// `>=`
    Ge,
    /// `&&`
    And,
    /// `||`
    Or,
}

/// A prefix operator as written in the source.
#[derive(Clone, Copy, Debug, PartialEq, Eq, Structural)]
pub enum UnaryOpKind {
    /// `-`
    Negate,
    /// `!`
    Not,
    /// `*`
    Dereference,
    /// `&`
    Reference,
    /// `&mut`
    MutableReference,
}

#[derive(Debug)]
pub enum PatKind {
    Identifier(String),
}

/// A pattern; only a plain name.
#[derive(Debug)]
pub struct Pat {
    pub kind: PatKind,
}

/// A parameter of a function.
#[derive(Debug)]
pub struct Param {
    pub ty: Type,
    pub pat: Pat,
}

impl Param {
    pub open spec fn spec_id(&self) -> Seq<char> {
        match self.pat.kind {
            PatKind::Identifier(id) => id@,
        }
    }

    /// The name that the parameter binds.
    pub fn id(&self) -> (r: String)
        ensures
            r@ == self.spec_id(),
    {
        match &self.pat.kind {
            PatKind::Identifier(id) => id.clone(),
        }
    }
}

/// The signature of a function.
#[derive(Debug)]
pub struct FnSig {
    pub inputs: Vec<Param>,
    pub return_type: Type,
}

/// A segment of a path, e.g. `io` in `std::io`.
#[derive(Debug)]
pub struct PathSegment {
    pub identifier: String,
}

/// A sequence of identifiers separated by `::`.
#[derive(Debug)]
pub struct Path {
    pub segments: Vec<PathSegment>,
}

impl Path {
    pub open spec fn model(&self) -> Seq<Seq<char>> {
        self.segments@.map_values(|s: PathSegment| s.identifier@)
    }

    /// A path of one segment.
    pub fn new(id: String) -> (r: Path)
        ensures
            r.model() == seq![id@],
    {
        let r = Path { segments: vec![PathSegment { identifier: id }] };
        assert(r.model() =~= seq![id@]);
        r
    }
}

#[derive(Debug)]
pub enum ExprKind {
    Unary(UnaryOpKind, Box<Expr>),
    Binary(Box<Expr>, BinOpKind, Box<Expr>),
    Literal(String),
    Path(Path),
    /// `if cond { block } else expr`
    If(Box<Expr>, Box<Block>, Option<Box<Expr>>),
    Block(Box<Block>),
}

#[derive(Debug)]
pub struct Expr {
    pub kind: ExprKind,
}

#[derive(Debug)]
pub enum LocalKind {
    /// `let x;`
    Decl,
    /// `let x = 42;`
    Init(Box<Expr>),
    /// `let Some(x) = y else { ... }`
    InitElse(Box<Expr>, Box<Block>),
}

/// A `let` binding.
#[derive(Debug)]
pub struct Local {
    pub pat: Box<Pat>,
    pub ty: Option<Box<Type>>,
    pub kind: LocalKind,
}

#[derive(Debug)]
pub enum StmtKind {
    /// `let x = 42;`
    Let(Box<Local>),
    /// A nested item.
    Item(Box<Node>),
    /// An expression without a semicolon: the value of its block.
    Expr(Box<Expr>),
    /// An expression followed by a semicolon.
    Semi(Box<Expr>),
}

#[derive(Debug)]
pub struct Stmt {
    pub kind: StmtKind,
}

/// A sequence of statements between braces.
#[derive(Debug)]
pub struct Block {
    pub stmts: Vec<Stmt>,
}

/// An attribute, e.g. `no_mangle` in `#[no_mangle]`.
#[derive(Debug)]
pub struct Attr {
    pub path: Path,
}

#[derive(Debug)]
pub struct Visibility {
    pub kind: VisibilityKind,
}

#[derive(Clone, Copy, Debug, PartialEq, Eq, Structural)]
pub enum VisibilityKind {
    Public,
    Private,
}

/// A function: signature and body.
#[derive(Debug)]
pub struct Fn {
    pub sig: FnSig,
    pub body: Option<Box<Block>>,
}

#[derive(Debug)]
pub enum NodeKind {
    Fn(Box<Fn>),
}

/// A top-level item.
#[derive(Debug)]
pub struct Node {
    pub attrs: Vec<Attr>,
    pub vis: Visibility,
    pub kind: NodeKind,
    pub identifier: Option<String>,
}

/// The model of an expression.
pub ghost enum SExpr {
    Unary(UnaryOpKind, Box<SExpr>),
    Binary(Box<SExpr>, BinOpKind, Box<SExpr>),
    Literal(Seq<char>),
    Path(Seq<Seq<char>>),
    If(Box<SExpr>, Seq<SStmt>, Option<Box<SExpr>>),
    Block(Seq<SStmt>),
}

/// The model of the initialiser of a `let`.
pub ghost enum SLocalKind {
    Decl,
    Init(SExpr),
    InitElse(SExpr, Seq<SStmt>),
}

/// The model of a statement; a nested item is modelled by its presence.
pub ghost enum SStmt {
    Let(Seq<char>, Option<Type>, SLocalKind),
    Item,
    Expr(SExpr),
    Semi(SExpr),
}

/// The model of a function item.
pub ghost struct SNode {
    pub attrs: Seq<Seq<Seq<char>>>,
    pub vis: VisibilityKind,
    pub name: Option<Seq<char>>,
    pub params: Seq<(Seq<char>, Type)>,
    pub ret: Type,
    pub body: Option<Seq<SStmt>>,
}

pub open spec fn pat_name(p: Pat) -> Seq<char> {
    match p.kind {
        PatKind::Identifier(id) => id@,
    }
}

impl Expr {
    pub open spec fn model(self) -> SExpr
        decreases self,
    {
        match self.kind {
            ExprKind::Unary(op, e) => SExpr::Unary(op, Box::new(e.model())),
            ExprKind::Binary(l, op, r) => SExpr::Binary(Box::new(l.model()), op, Box::new(r.model())),
            ExprKind::Literal(v) => SExpr::Literal(v@),
            ExprKind::Path(p) => SExpr::Path(p.model()),
            ExprKind::If(c, b, e) => SExpr::If(
                Box::new(c.model()),
                b.model(),
                match e {
                    Some(x) => Some(Box::new(x.model())),
                    None => None,
                },
            ),
            ExprKind::Block(b) => SExpr::Block(b.model()),
        }
    }
}

impl Block {
    pub open spec fn model(self) -> Seq<SStmt>
        decreases self,
    {
        stmts_model(self.stmts@)
    }
}

pub open spec fn stmts_model(s: Seq<Stmt>) -> Seq<SStmt>
    decreases s,
{
    if s.len() == 0 {
        Seq::empty()
    } else {
        stmts_model(s.drop_last()).push(s.last().model())
    }
}

impl Stmt {
    pub open spec fn model(self) -> SStmt
        decreases self,
    {
        match self.kind {
            StmtKind::Let(l) => SStmt::Let(
                pat_name(*l.pat),
                match l.ty {
                    Some(t) => Some(*t),
                    None => None,
                },
                match l.kind {
                    LocalKind::Decl => SLocalKind::Decl,
                    LocalKind::Init(e) => SLocalKind::Init(e.model()),
                    LocalKind::InitElse(e, b) => SLocalKind::InitElse(e.model(), b.model()),
                },
            ),
            StmtKind::Item(_) => SStmt::Item,
            StmtKind::Expr(e) => SStmt::Expr(e.model()),
            StmtKind::Semi(e) => SStmt::Semi(e.model()),
        }
    }
}

pub open spec fn attr_models(v: Seq<Attr>) -> Seq<Seq<Seq<char>>> {
    v.map_values(|a: Attr| a.path.model())
}

impl Node {
    pub open spec fn model(self) -> SNode {
        match self.kind {
            NodeKind::Fn(f) => SNode {
                attrs: attr_models(self.attrs@),
                vis: self.vis.kind,
                name: match self.identifier {
                    Some(s) => Some(s@),
                    None => None,
                },
                params: f.sig.inputs@.map_values(|p: Param| (pat_name(p.pat), p.ty)),
                ret: f.sig.return_type,
                body: match f.body {
                    Some(b) => Some(b.model()),
                    None => None,
                },
            },
        }
    }
}

} // verus!
