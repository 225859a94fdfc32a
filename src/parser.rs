//! Recursive-descent parser from tokens to the syntax tree.
//!
//! The grammar is stated by the spec functions `p_*`, each of which reads
//! from a token index and yields the model of what it parsed and the index
//! after it, or `None` where the tokens do not fit.
use vstd::prelude::*;
use crate::ast::{
    Attr, BinOpKind, Block, Expr, ExprKind, Fn, FnSig, Local, LocalKind, Node, NodeKind, Pat,
    PatKind, Path, SExpr, attr_models, SLocalKind, SNode, SStmt, Stmt, StmtKind, UnaryOpKind, Visibility,
    VisibilityKind, stmts_model,
};
use crate::lexer::{Token, tokenize, lex_from, lexemes};
use crate::types::{PrimitiveType, Type};

verus! {

pub open spec fn tok(ts: Seq<Token>, i: int) -> Option<Token> {
    if 0 <= i < ts.len() {
        Some(ts[i])
    } else {
        None
    }
}

/// The type that an identifier names.
pub open spec fn type_named(s: Seq<char>) -> Option<Type> {
    if s == "i8"@ {
        Some(Type::Primitive(PrimitiveType::I8))
    } else if s == "i16"@ {
        Some(Type::Primitive(PrimitiveType::I16))
    } else if s == "i32"@ {
        Some(Type::Primitive(PrimitiveType::I32))
    } else if s == "i64"@ {
        Some(Type::Primitive(PrimitiveType::I64))
    } else if s == "u8"@ {
        Some(Type::Primitive(PrimitiveType::U8))
    } else if s == "u16"@ {
        Some(Type::Primitive(PrimitiveType::U16))
    } else if s == "u32"@ {
        Some(Type::Primitive(PrimitiveType::U32))
    } else if s == "u64"@ {
        Some(Type::Primitive(PrimitiveType::U64))
    } else if s == "f32"@ {
        Some(Type::Primitive(PrimitiveType::F32))
    } else if s == "f64"@ {
        Some(Type::Primitive(PrimitiveType::F64))
    } else if s == "void"@ {
        Some(Type::Primitive(PrimitiveType::Void))
    } else {
        None
    }
}

/// The left-associative binary operator that token `t` stands for at
/// level `lvl`: 0 `|`, 1 `^`, 2 `&`, 3 shifts, 4 additive, 5 multiplicative.
pub open spec fn level_op(lvl: nat, t: Token) -> Option<BinOpKind> {
    match t {
        Token::Or => if lvl == 0 { Some(BinOpKind::BitOr) } else { None },
        Token::Caret => if lvl == 1 { Some(BinOpKind::BitXor) } else { None },
        Token::And => if lvl == 2 { Some(BinOpKind::BitAnd) } else { None },
        Token::ShiftLeft => if lvl == 3 { Some(BinOpKind::ShiftLeft) } else { None },
        Token::ShiftRight => if lvl == 3 { Some(BinOpKind::ShiftRight) } else { None },
        Token::Plus => if lvl == 4 { Some(BinOpKind::Plus) } else { None },
        Token::Minus => if lvl == 4 { Some(BinOpKind::Minus) } else { None },
        Token::Star => if lvl == 5 { Some(BinOpKind::Multiply) } else { None },
        Token::Slash => if lvl == 5 { Some(BinOpKind::Divide) } else { None },
        Token::Percent => if lvl == 5 { Some(BinOpKind::Modulo) } else { None },
        _ => None,
    }
}

/// The comparison operator that token `t` stands for.
pub open spec fn cmp_op(t: Token) -> Option<BinOpKind> {
    match t {
        Token::Lt => Some(BinOpKind::Lt),
        Token::Gt => Some(BinOpKind::Gt),
        Token::LtEq => Some(BinOpKind::Le),
        Token::GtEq => Some(BinOpKind::Ge),
        Token::EqEq => Some(BinOpKind::Eq),
        Token::NotEq => Some(BinOpKind::Ne),
        _ => None,
    }
}

pub open spec fn is_cmp_at(ts: Seq<Token>, i: int) -> bool {
    match tok(ts, i) {
        Some(t) => cmp_op(t) is Some,
        None => false,
    }
}

pub open spec fn lvl_rank(lvl: nat) -> int {
    if lvl <= 5 {
        5 - lvl
    } else {
        0
    }
}

pub open spec fn p_type(ts: Seq<Token>, i: int) -> Option<(Type, int)> {
    match tok(ts, i) {
        Some(Token::Identifier { id }) => match type_named(id@) {
            Some(t) => Some((t, i + 1)),
            None => None,
        },
        _ => None,
    }
}

/// Whether a token can start a primary expression.
pub open spec fn starts_primary(t: Option<Token>) -> bool {
    match t {
        Some(Token::Number { .. }) => true,
        Some(Token::Identifier { .. }) => true,
        Some(Token::OpenParen) => true,
        _ => false,
    }
}

/// A number, a name, or an expression in parentheses.
pub open spec fn p_primary(ts: Seq<Token>, i: int) -> Option<(SExpr, int)>
    decreases ts.len() - i, 1int,
{
    match tok(ts, i) {
        Some(Token::Number { number }) => Some((SExpr::Literal(number@), i + 1)),
        Some(Token::Identifier { id }) => Some((SExpr::Path(seq![id@]), i + 1)),
        Some(Token::OpenParen) => match p_expr(ts, i + 1) {
            Some((e, j)) => if tok(ts, j) == Some(Token::CloseParen) {
                Some((e, j + 1))
            } else {
                None
            },
            None => None,
        },
        _ => None,
    }
}

/// Prefix `-` and `!`, nested to any depth, before a primary expression.
pub open spec fn p_unary(ts: Seq<Token>, i: int) -> Option<(SExpr, int)>
    decreases ts.len() - i, 2int,
{
    match tok(ts, i) {
        Some(Token::Minus) => match p_unary(ts, i + 1) {
            Some((e, j)) => Some((SExpr::Unary(UnaryOpKind::Negate, Box::new(e)), j)),
            None => None,
        },
        Some(Token::Bang) => match p_unary(ts, i + 1) {
            Some((e, j)) => Some((SExpr::Unary(UnaryOpKind::Not, Box::new(e)), j)),
            None => None,
        },
        _ => p_primary(ts, i),
    }
}

/// An operand of level `lvl`: the next tighter level.
pub open spec fn p_operand(ts: Seq<Token>, i: int, lvl: nat) -> Option<(SExpr, int)>
    decreases ts.len() - i, 3 + 2 * lvl_rank(lvl),
{
    if lvl >= 5 {
        p_unary(ts, i)
    } else {
        p_level(ts, i, lvl + 1)
    }
}

/// A left-associative chain of operands joined by operators of level `lvl`.
pub open spec fn p_level(ts: Seq<Token>, i: int, lvl: nat) -> Option<(SExpr, int)>
    decreases ts.len() - i, 4 + 2 * lvl_rank(lvl),
{
    match p_operand(ts, i, lvl) {
        Some((l, j)) => if i < j <= ts.len() {
            p_fold(ts, j, lvl, l)
        } else {
            None
        },
        None => None,
    }
}

/// Folds further `op operand` pairs of level `lvl` into `left`, from `j` on.
pub open spec fn p_fold(ts: Seq<Token>, j: int, lvl: nat, left: SExpr) -> Option<(SExpr, int)>
    decreases ts.len() - j, 0int,
{
    match tok(ts, j) {
        Some(t) => match level_op(lvl, t) {
            Some(op) => match p_operand(ts, j + 1, lvl) {
                Some((r, k)) => if j + 1 < k <= ts.len() {
                    p_fold(ts, k, lvl, SExpr::Binary(Box::new(left), op, Box::new(r)))
                } else {
                    None
                },
                None => None,
            },
            None => Some((left, j)),
        },
        None => Some((left, j)),
    }
}

/// At most one comparison between two bit-or chains; a second comparison
/// without parentheses is rejected.
pub open spec fn p_comparison(ts: Seq<Token>, i: int) -> Option<(SExpr, int)>
    decreases ts.len() - i, 20int,
{
    match p_level(ts, i, 0) {
        Some((l, j)) => if !(i < j <= ts.len()) {
            None
        } else {
            match tok(ts, j) {
                Some(t) => match cmp_op(t) {
                    Some(op) => match p_level(ts, j + 1, 0) {
                        Some((r, k)) => if !(j + 1 < k <= ts.len()) || is_cmp_at(ts, k) {
                            None
                        } else {
                            Some((SExpr::Binary(Box::new(l), op, Box::new(r)), k))
                        },
                        None => None,
                    },
                    None => Some((l, j)),
                },
                None => Some((l, j)),
            }
        },
        None => None,
    }
}

/// `{ statements }`
pub open spec fn p_block(ts: Seq<Token>, i: int) -> Option<(Seq<SStmt>, int)>
    decreases ts.len() - i, 21int,
{
    if tok(ts, i) == Some(Token::OpenBrace) {
        match p_stmts(ts, i + 1, Seq::empty()) {
            Some((ss, j)) => if tok(ts, j) == Some(Token::CloseBrace) {
                Some((ss, j + 1))
            } else {
                None
            },
            None => None,
        }
    } else {
        None
    }
}

/// `if cond block (else (if ... | block))?`
pub open spec fn p_if(ts: Seq<Token>, i: int) -> Option<(SExpr, int)>
    decreases ts.len() - i, 22int,
{
    if tok(ts, i) != Some(Token::If) {
        None
    } else {
        match p_expr(ts, i + 1) {
            Some((c, j)) => if !(i < j <= ts.len()) {
                None
            } else {
                match p_block(ts, j) {
                    Some((b, k)) => if !(j < k <= ts.len()) {
                        None
                    } else if tok(ts, k) == Some(Token::Else) {
                        if tok(ts, k + 1) == Some(Token::If) {
                            match p_if(ts, k + 1) {
                                Some((e, m)) => Some(
                                    (SExpr::If(Box::new(c), b, Some(Box::new(e))), m),
                                ),
                                None => None,
                            }
                        } else if tok(ts, k + 1) == Some(Token::OpenBrace) {
                            match p_block(ts, k + 1) {
                                Some((b2, m)) => Some(
                                    (
                                        SExpr::If(
                                            Box::new(c),
                                            b,
                                            Some(Box::new(SExpr::Block(b2))),
                                        ),
                                        m,
                                    ),
                                ),
                                None => None,
                            }
                        } else {
                            None
                        }
                    } else {
                        Some((SExpr::If(Box::new(c), b, None), k))
                    },
                    None => None,
                }
            },
            None => None,
        }
    }
}

/// An `if`, a block, or a comparison.
pub open spec fn p_expr(ts: Seq<Token>, i: int) -> Option<(SExpr, int)>
    decreases ts.len() - i, 23int,
{
    if tok(ts, i) == Some(Token::If) {
        p_if(ts, i)
    } else if tok(ts, i) == Some(Token::OpenBrace) {
        match p_block(ts, i) {
            Some((b, j)) => Some((SExpr::Block(b), j)),
            None => None,
        }
    } else {
        p_comparison(ts, i)
    }
}

/// The part of a `let` after its optional type, from the `=` at `q` on.
pub open spec fn p_let_rest(
    ts: Seq<Token>,
    i: int,
    name: Seq<char>,
    ty: Option<Type>,
    q: int,
) -> Option<(SStmt, int)>
    decreases ts.len() - i, 0int,
{
    if i < q && tok(ts, q) == Some(Token::Eq) {
        match p_expr(ts, q + 1) {
            Some((e, k)) => if tok(ts, k) == Some(Token::Semicolon) {
                Some((SStmt::Let(name, ty, SLocalKind::Init(e)), k + 1))
            } else {
                None
            },
            None => None,
        }
    } else {
        None
    }
}

/// `let name (: type)? = expr ;`
pub open spec fn p_let(ts: Seq<Token>, i: int) -> Option<(SStmt, int)>
    decreases ts.len() - i, 24int,
{
    if tok(ts, i) != Some(Token::Let) {
        None
    } else {
        match tok(ts, i + 1) {
            Some(Token::Identifier { id }) => if tok(ts, i + 2) == Some(Token::Colon) {
                match p_type(ts, i + 3) {
                    Some((t, q)) => p_let_rest(ts, i, id@, Some(t), q),
                    None => None,
                }
            } else {
                p_let_rest(ts, i, id@, None, i + 2)
            },
            _ => None,
        }
    }
}

/// A `let`, or an expression, followed by `;` or not.
pub open spec fn p_stmt(ts: Seq<Token>, i: int) -> Option<(SStmt, int)>
    decreases ts.len() - i, 25int,
{
    if tok(ts, i) == Some(Token::Let) {
        p_let(ts, i)
    } else {
        match p_expr(ts, i) {
            Some((e, j)) => if tok(ts, j) == Some(Token::Semicolon) {
                Some((SStmt::Semi(e), j + 1))
            } else {
                Some((SStmt::Expr(e), j))
            },
            None => None,
        }
    }
}

/// Statements up to a `}` or the end of the tokens, appended to `acc`.
pub open spec fn p_stmts(ts: Seq<Token>, i: int, acc: Seq<SStmt>) -> Option<(Seq<SStmt>, int)>
    decreases ts.len() - i, 26int,
{
    match tok(ts, i) {
        None => Some((acc, i)),
        Some(Token::CloseBrace) => Some((acc, i)),
        Some(_) => match p_stmt(ts, i) {
            Some((s, j)) => if i < j <= ts.len() {
                p_stmts(ts, j, acc.push(s))
            } else {
                None
            },
            None => None,
        },
    }
}

/// The names between `#[` and `]`, appended to `acc`.
pub open spec fn p_attrs(ts: Seq<Token>, i: int, acc: Seq<Seq<Seq<char>>>) -> Option<
    (Seq<Seq<Seq<char>>>, int),
>
    decreases ts.len() - i,
{
    match tok(ts, i) {
        Some(Token::CloseBracket) => Some((acc, i + 1)),
        Some(Token::Identifier { id }) => p_attrs(ts, i + 1, acc.push(seq![id@])),
        _ => None,
    }
}

/// The function from its visibility on, at `a`.
pub open spec fn p_fn_rest(ts: Seq<Token>, attrs: Seq<Seq<Seq<char>>>, a: int) -> Option<SNode> {
    let vis = if tok(ts, a) == Some(Token::Pub) {
        VisibilityKind::Public
    } else {
        VisibilityKind::Private
    };
    let b = if tok(ts, a) == Some(Token::Pub) {
        a + 1
    } else {
        a
    };
    if tok(ts, b) != Some(Token::Fn) || tok(ts, b + 2) != Some(Token::OpenParen) || tok(ts, b + 3)
        != Some(Token::CloseParen) {
        None
    } else {
        match tok(ts, b + 1) {
            Some(Token::Identifier { id }) => {
                let ret = if tok(ts, b + 4) == Some(Token::RightArrow) {
                    p_type(ts, b + 5)
                } else {
                    Some((Type::Primitive(PrimitiveType::Void), b + 4))
                };
                match ret {
                    Some((t, d)) => match p_block(ts, d) {
                        Some((body, _)) => Some(
                            SNode {
                                attrs,
                                vis,
                                name: Some(id@),
                                params: Seq::empty(),
                                ret: t,
                                body: Some(body),
                            },
                        ),
                        None => None,
                    },
                    None => None,
                }
            },
            _ => None,
        }
    }
}

/// One function item: `#[attrs]? pub? fn name() (-> type)? block`.
pub open spec fn p_fn(ts: Seq<Token>) -> Option<SNode> {
    if tok(ts, 0) == Some(Token::Hash) {
        if tok(ts, 1) == Some(Token::OpenBracket) {
            match p_attrs(ts, 2, Seq::empty()) {
                Some((attrs, a)) => p_fn_rest(ts, attrs, a),
                None => None,
            }
        } else {
            None
        }
    } else {
        p_fn_rest(ts, Seq::empty(), 0)
    }
}


pub open spec fn expr_result(r: Result<(Expr, usize), String>, s: Option<(SExpr, int)>, i: int, n: int) -> bool {
    match r {
        Ok((e, j)) => s == Some((e.model(), j as int)) && i < j <= n,
        Err(m) => s is None && is_parse_error(m@),
    }
}

pub open spec fn block_result(r: Result<(Block, usize), String>, s: Option<(Seq<SStmt>, int)>, i: int, n: int) -> bool {
    match r {
        Ok((b, j)) => s == Some((b.model(), j as int)) && i < j <= n,
        Err(m) => s is None && is_parse_error(m@),
    }
}

pub open spec fn stmt_result(r: Result<(Stmt, usize), String>, s: Option<(SStmt, int)>, i: int, n: int) -> bool {
    match r {
        Ok((st, j)) => s == Some((st.model(), j as int)) && i < j <= n,
        Err(m) => s is None && is_parse_error(m@),
    }
}

pub open spec fn is_punct(t: Token) -> bool {
    match t {
        Token::OpenParen => true,
        Token::CloseParen => true,
        Token::OpenBrace => true,
        Token::CloseBrace => true,
        Token::OpenBracket => true,
        Token::CloseBracket => true,
        Token::Semicolon => true,
        Token::Colon => true,
        Token::Eq => true,
        Token::Hash => true,
        Token::RightArrow => true,
        Token::Fn => true,
        Token::Let => true,
        Token::If => true,
        Token::Else => true,
        Token::Pub => true,
        _ => false,
    }
}

/// Whether `u` is the punctuation or keyword token `t`.
fn same_punct(u: &Token, t: &Token) -> (r: bool)
    requires
        is_punct(*t),
    ensures
        r == (*u == *t),
{
    match (u, t) {
            (Token::OpenParen, Token::OpenParen) => true,
            (Token::CloseParen, Token::CloseParen) => true,
            (Token::OpenBrace, Token::OpenBrace) => true,
            (Token::CloseBrace, Token::CloseBrace) => true,
            (Token::OpenBracket, Token::OpenBracket) => true,
            (Token::CloseBracket, Token::CloseBracket) => true,
            (Token::Semicolon, Token::Semicolon) => true,
            (Token::Colon, Token::Colon) => true,
            (Token::Eq, Token::Eq) => true,
            (Token::Hash, Token::Hash) => true,
            (Token::RightArrow, Token::RightArrow) => true,
            (Token::Fn, Token::Fn) => true,
            (Token::Let, Token::Let) => true,
            (Token::If, Token::If) => true,
            (Token::Else, Token::Else) => true,
            (Token::Pub, Token::Pub) => true,
            _ => false,
    }
}

/// The form of every parse error: `Unexpected ...`, or `Unknown type`.
pub open spec fn is_parse_error(m: Seq<char>) -> bool {
    (m.len() >= 10 && m.subrange(0, 10) == "Unexpected"@) || m == "Unknown type"@
}

/// The error `Unexpected token, expected <what>`.
fn unexpected<T>(what: &str) -> (r: Result<T, String>)
    ensures
        r matches Err(m) && m@ == "Unexpected token, expected "@ + what@ && is_parse_error(m@),
{
    let mut m = "Unexpected token, expected ".to_owned();
    m.append(what);
    proof {
        reveal_strlit("Unexpected token, expected ");
        reveal_strlit("Unexpected");
        assert(m@.subrange(0, 10) =~= "Unexpected"@);
    }
    Err(m)
}

/// The error `Unknown type`.
fn unknown_type<T>() -> (r: Result<T, String>)
    ensures
        r matches Err(m) && m@ == "Unknown type"@,
{
    Err("Unknown type".to_owned())
}

/// A parser over the tokens of one source file.
pub struct Parser {
    tokens: Vec<Token>,
}

impl Parser {
    pub closed spec fn spec_tokens(&self) -> Seq<Token> {
        self.tokens@
    }

    pub fn new() -> (r: Parser)
        ensures
            r.spec_tokens() == Seq::<Token>::empty(),
    {
        Parser { tokens: Vec::new() }
    }

    /// Lexes and parses `input` as one function item.
    pub fn parse(&mut self, input: &String) -> (r: Result<Node, String>)
        ensures
            lexemes(final(self).spec_tokens()) == lex_from(input@, 0),
            match r {
                Ok(n) => p_fn(final(self).spec_tokens()) == Some(n.model()),
                Err(m) => p_fn(final(self).spec_tokens()) is None && is_parse_error(m@),
            },
    {
        let tokens = tokenize(input.as_str());
        self.parse_tokens(tokens)
    }

    /// Parses a token sequence, without whitespace and comments, as one
    /// function item.
    pub fn parse_tokens(&mut self, tokens: Vec<Token>) -> (r: Result<Node, String>)
        ensures
            final(self).spec_tokens() == tokens@,
            match r {
                Ok(n) => p_fn(tokens@) == Some(n.model()),
                Err(m) => p_fn(tokens@) is None && is_parse_error(m@),
            },
    {
        self.tokens = tokens;
        self.parse_fn()
    }

    /// The token at `i`, if any.
    fn peek(&self, i: usize) -> (r: Option<&Token>)
        ensures
            match r {
                Some(t) => tok(self.tokens@, i as int) == Some(*t),
                None => tok(self.tokens@, i as int) is None,
            },
            r is Some ==> i < self.tokens.len(),
    {
        if i < self.tokens.len() {
            Some(&self.tokens[i])
        } else {
            None
        }
    }

    fn is_at(&self, i: usize, t: Token) -> (r: bool)
        requires
            is_punct(t),
        ensures
            r == (tok(self.tokens@, i as int) == Some(t)),
            r ==> i < self.tokens.len(),
    {
        match self.peek(i) {
            Some(u) => same_punct(u, &t),
            None => false,
        }
    }
}


/// Whether the string holds exactly the text `lit`.
fn text_is(id: &String, lit: &str) -> (r: bool)
    ensures
        r == (id@ == lit@),
{
    let s = lit.to_owned();
    *id == s
}

fn type_named_exec(id: &String) -> (r: Option<Type>)
    ensures
        r == type_named(id@),
{
    if text_is(id, "i8") {
        Some(Type::Primitive(PrimitiveType::I8))
    } else if text_is(id, "i16") {
        Some(Type::Primitive(PrimitiveType::I16))
    } else if text_is(id, "i32") {
        Some(Type::Primitive(PrimitiveType::I32))
    } else if text_is(id, "i64") {
        Some(Type::Primitive(PrimitiveType::I64))
    } else if text_is(id, "u8") {
        Some(Type::Primitive(PrimitiveType::U8))
    } else if text_is(id, "u16") {
        Some(Type::Primitive(PrimitiveType::U16))
    } else if text_is(id, "u32") {
        Some(Type::Primitive(PrimitiveType::U32))
    } else if text_is(id, "u64") {
        Some(Type::Primitive(PrimitiveType::U64))
    } else if text_is(id, "f32") {
        Some(Type::Primitive(PrimitiveType::F32))
    } else if text_is(id, "f64") {
        Some(Type::Primitive(PrimitiveType::F64))
    } else if text_is(id, "void") {
        Some(Type::Primitive(PrimitiveType::Void))
    } else {
        None
    }
}

fn level_op_of(lvl: u8, t: &Token) -> (r: Option<BinOpKind>)
    ensures
        r == level_op(lvl as nat, *t),
{
    match t {
        Token::Or => if lvl == 0 { Some(BinOpKind::BitOr) } else { None },
        Token::Caret => if lvl == 1 { Some(BinOpKind::BitXor) } else { None },
        Token::And => if lvl == 2 { Some(BinOpKind::BitAnd) } else { None },
        Token::ShiftLeft => if lvl == 3 { Some(BinOpKind::ShiftLeft) } else { None },
        Token::ShiftRight => if lvl == 3 { Some(BinOpKind::ShiftRight) } else { None },
        Token::Plus => if lvl == 4 { Some(BinOpKind::Plus) } else { None },
        Token::Minus => if lvl == 4 { Some(BinOpKind::Minus) } else { None },
        Token::Star => if lvl == 5 { Some(BinOpKind::Multiply) } else { None },
        Token::Slash => if lvl == 5 { Some(BinOpKind::Divide) } else { None },
        Token::Percent => if lvl == 5 { Some(BinOpKind::Modulo) } else { None },
        _ => None,
    }
}

fn cmp_op_of(t: &Token) -> (r: Option<BinOpKind>)
    ensures
        r == cmp_op(*t),
{
    match t {
        Token::Lt => Some(BinOpKind::Lt),
        Token::Gt => Some(BinOpKind::Gt),
        Token::LtEq => Some(BinOpKind::Le),
        Token::GtEq => Some(BinOpKind::Ge),
        Token::EqEq => Some(BinOpKind::Eq),
        Token::NotEq => Some(BinOpKind::Ne),
        _ => None,
    }
}

impl Parser {
    fn cmp_at(&self, i: usize) -> (r: bool)
        ensures
            r == is_cmp_at(self.tokens@, i as int),
    {
        match self.peek(i) {
            Some(t) => cmp_op_of(t).is_some(),
            None => false,
        }
    }

    fn parse_type(&self, i: usize) -> (r: Result<(Type, usize), String>)
        ensures
            match r {
                Ok((t, j)) => p_type(self.tokens@, i as int) == Some((t, j as int)),
                Err(m) => p_type(self.tokens@, i as int) is None && is_parse_error(m@),
            },
            (tok(self.tokens@, i as int) matches Some(Token::Identifier { id }) && type_named(id@) is None)
                ==> (r matches Err(m) && m@ == "Unknown type"@),
    {
        match self.peek(i) {
            Some(Token::Identifier { id }) => match type_named_exec(id) {
                Some(t) => Ok((t, i + 1)),
                None => unknown_type(),
            },
            _ => unexpected("type"),
        }
    }

    fn parse_primary(&self, i: usize) -> (r: Result<(Expr, usize), String>)
        requires
            i <= self.tokens@.len(),
        ensures
            expr_result(r, p_primary(self.tokens@, i as int), i as int, self.tokens@.len() as int),
            !starts_primary(tok(self.tokens@, i as int)) ==> (r matches Err(m) && m@
                == "Unexpected token, expected "@ + "primary"@),
        decreases self.tokens@.len() - i, 1int,
    {
        match self.peek(i) {
            Some(Token::Number { number }) => Ok(
                (Expr { kind: ExprKind::Literal(number.clone()) }, i + 1),
            ),
            Some(Token::Identifier { id }) => Ok(
                (Expr { kind: ExprKind::Path(Path::new(id.clone())) }, i + 1),
            ),
            Some(Token::OpenParen) => match self.parse_expression(i + 1) {
                Ok((e, j)) => if self.is_at(j, Token::CloseParen) {
                    Ok((e, j + 1))
                } else {
                    unexpected("`)`")
                },
                Err(m) => Err(m),
            },
            Some(_) => unexpected("primary"),
            None => unexpected("primary"),
        }
    }

    fn parse_unary(&self, i: usize) -> (r: Result<(Expr, usize), String>)
        requires
            i <= self.tokens@.len(),
        ensures
            expr_result(r, p_unary(self.tokens@, i as int), i as int, self.tokens@.len() as int),
        decreases self.tokens@.len() - i, 2int,
    {
        let op = match self.peek(i) {
            Some(Token::Minus) => UnaryOpKind::Negate,
            Some(Token::Bang) => UnaryOpKind::Not,
            _ => return self.parse_primary(i),
        };
        match self.parse_unary(i + 1) {
            Ok((e, j)) => Ok((Expr { kind: ExprKind::Unary(op, Box::new(e)) }, j)),
            Err(m) => Err(m),
        }
    }

    fn parse_operand(&self, i: usize, lvl: u8) -> (r: Result<(Expr, usize), String>)
        requires
            i <= self.tokens@.len(),
        ensures
            expr_result(
                r,
                p_operand(self.tokens@, i as int, lvl as nat),
                i as int,
                self.tokens@.len() as int,
            ),
        decreases self.tokens@.len() - i, 3 + 2 * lvl_rank(lvl as nat),
    {
        if lvl >= 5 {
            self.parse_unary(i)
        } else {
            self.parse_level(i, lvl + 1)
        }
    }

    /// A left-associative chain of level `lvl`, folded by iteration.
    fn parse_level(&self, i: usize, lvl: u8) -> (r: Result<(Expr, usize), String>)
        requires
            i <= self.tokens@.len(),
        ensures
            expr_result(
                r,
                p_level(self.tokens@, i as int, lvl as nat),
                i as int,
                self.tokens@.len() as int,
            ),
        decreases self.tokens@.len() - i, 4 + 2 * lvl_rank(lvl as nat),
    {
        let (mut left, mut j) = match self.parse_operand(i, lvl) {
            Ok(x) => x,
            Err(m) => return Err(m),
        };
        loop
            invariant
                i < j <= self.tokens@.len(),
                p_level(self.tokens@, i as int, lvl as nat) == p_fold(
                    self.tokens@,
                    j as int,
                    lvl as nat,
                    left.model(),
                ),
            decreases self.tokens@.len() - j,
        {
            let op = match self.peek(j) {
                Some(t) => level_op_of(lvl, t),
                None => None,
            };
            match op {
                None => return Ok((left, j)),
                Some(op) => match self.parse_operand(j + 1, lvl) {
                    Ok((r, k)) => {
                        left = Expr { kind: ExprKind::Binary(Box::new(left), op, Box::new(r)) };
                        j = k;
                    },
                    Err(m) => return Err(m),
                },
            }
        }
    }

    /// A comparison; a second comparison operator without parentheses is
    /// an error.
    fn parse_comparison(&self, i: usize) -> (r: Result<(Expr, usize), String>)
        requires
            i <= self.tokens@.len(),
        ensures
            expr_result(r, p_comparison(self.tokens@, i as int), i as int, self.tokens@.len() as int),
        decreases self.tokens@.len() - i, 20int,
    {
        let (l, j) = match self.parse_level(i, 0) {
            Ok(x) => x,
            Err(m) => return Err(m),
        };
        let op = match self.peek(j) {
            Some(t) => cmp_op_of(t),
            None => None,
        };
        match op {
            None => Ok((l, j)),
            Some(op) => match self.parse_level(j + 1, 0) {
                Ok((r, k)) => if self.cmp_at(k) {
                    unexpected("parentheses around a chained comparison")
                } else {
                    Ok((Expr { kind: ExprKind::Binary(Box::new(l), op, Box::new(r)) }, k))
                },
                Err(m) => Err(m),
            },
        }
    }

    fn parse_block_common(&self, i: usize) -> (r: Result<(Block, usize), String>)
        requires
            i <= self.tokens@.len(),
        ensures
            block_result(r, p_block(self.tokens@, i as int), i as int, self.tokens@.len() as int),
        decreases self.tokens@.len() - i, 21int,
    {
        if !self.is_at(i, Token::OpenBrace) {
            return unexpected("`{`");
        }
        match self.parse_statements(i + 1) {
            Ok((stmts, j)) => if self.is_at(j, Token::CloseBrace) {
                Ok((Block { stmts }, j + 1))
            } else {
                unexpected("`}`")
            },
            Err(m) => Err(m),
        }
    }

    fn parse_statements(&self, i: usize) -> (r: Result<(Vec<Stmt>, usize), String>)
        requires
            i <= self.tokens@.len(),
        ensures
            match r {
                Ok((v, j)) => p_stmts(self.tokens@, i as int, Seq::empty()) == Some(
                    (stmts_model(v@), j as int),
                ) && i <= j <= self.tokens@.len(),
                Err(m) => p_stmts(self.tokens@, i as int, Seq::empty()) is None && is_parse_error(m@),
            },
        decreases self.tokens@.len() - i, 26int,
    {
        let mut stmts: Vec<Stmt> = Vec::new();
        let mut j = i;
        assert(stmts_model(stmts@) =~= Seq::empty());
        loop
            invariant
                i <= j <= self.tokens@.len(),
                p_stmts(self.tokens@, i as int, Seq::empty()) == p_stmts(
                    self.tokens@,
                    j as int,
                    stmts_model(stmts@),
                ),
            decreases self.tokens@.len() - j,
        {
            match self.peek(j) {
                None => return Ok((stmts, j)),
                Some(Token::CloseBrace) => return Ok((stmts, j)),
                Some(_) => {},
            }
            match self.parse_statement(j) {
                Ok((s, k)) => {
                    let ghost before = stmts@;
                    stmts.push(s);
                    assert(stmts@.drop_last() =~= before);
                    j = k;
                },
                Err(m) => return Err(m),
            }
        }
    }

    fn parse_statement(&self, i: usize) -> (r: Result<(Stmt, usize), String>)
        requires
            i <= self.tokens@.len(),
        ensures
            stmt_result(r, p_stmt(self.tokens@, i as int), i as int, self.tokens@.len() as int),
        decreases self.tokens@.len() - i, 25int,
    {
        if self.is_at(i, Token::Let) {
            return self.parse_let(i);
        }
        match self.parse_expression(i) {
            Ok((e, j)) => if self.is_at(j, Token::Semicolon) {
                Ok((Stmt { kind: StmtKind::Semi(Box::new(e)) }, j + 1))
            } else {
                Ok((Stmt { kind: StmtKind::Expr(Box::new(e)) }, j))
            },
            Err(m) => Err(m),
        }
    }

    fn parse_let(&self, i: usize) -> (r: Result<(Stmt, usize), String>)
        requires
            i <= self.tokens@.len(),
        ensures
            stmt_result(r, p_let(self.tokens@, i as int), i as int, self.tokens@.len() as int),
        decreases self.tokens@.len() - i, 24int,
    {
        if !self.is_at(i, Token::Let) {
            return unexpected("`let`");
        }
        let id = match self.peek(i + 1) {
            Some(Token::Identifier { id }) => id.clone(),
            _ => return unexpected("identifier"),
        };
        let (ty, q) = if self.is_at(i + 2, Token::Colon) {
            match self.parse_type(i + 3) {
                Ok((t, q)) => (Some(Box::new(t)), q),
                Err(m) => return Err(m),
            }
        } else {
            (None, i + 2)
        };
        if !self.is_at(q, Token::Eq) {
            return unexpected("`=`");
        }
        let (e, k) = match self.parse_expression(q + 1) {
            Ok(x) => x,
            Err(m) => return Err(m),
        };
        if !self.is_at(k, Token::Semicolon) {
            return unexpected("`;`");
        }
        let local = Local {
            pat: Box::new(Pat { kind: PatKind::Identifier(id) }),
            ty,
            kind: LocalKind::Init(Box::new(e)),
        };
        Ok((Stmt { kind: StmtKind::Let(Box::new(local)) }, k + 1))
    }

    fn parse_expression(&self, i: usize) -> (r: Result<(Expr, usize), String>)
        requires
            i <= self.tokens@.len(),
        ensures
            expr_result(r, p_expr(self.tokens@, i as int), i as int, self.tokens@.len() as int),
        decreases self.tokens@.len() - i, 23int,
    {
        if self.is_at(i, Token::If) {
            self.parse_if(i)
        } else if self.is_at(i, Token::OpenBrace) {
            match self.parse_block_common(i) {
                Ok((b, j)) => Ok((Expr { kind: ExprKind::Block(Box::new(b)) }, j)),
                Err(m) => Err(m),
            }
        } else {
            self.parse_comparison(i)
        }
    }

    fn parse_if(&self, i: usize) -> (r: Result<(Expr, usize), String>)
        requires
            i <= self.tokens@.len(),
        ensures
            expr_result(r, p_if(self.tokens@, i as int), i as int, self.tokens@.len() as int),
        decreases self.tokens@.len() - i, 22int,
    {
        if !self.is_at(i, Token::If) {
            return unexpected("`if`");
        }
        let (c, j) = match self.parse_expression(i + 1) {
            Ok(x) => x,
            Err(m) => return Err(m),
        };
        let (b, k) = match self.parse_block_common(j) {
            Ok(x) => x,
            Err(m) => return Err(m),
        };
        if !self.is_at(k, Token::Else) {
            return Ok((Expr { kind: ExprKind::If(Box::new(c), Box::new(b), None) }, k));
        }
        if self.is_at(k + 1, Token::If) {
            match self.parse_if(k + 1) {
                Ok((e, m)) => Ok(
                    (Expr { kind: ExprKind::If(Box::new(c), Box::new(b), Some(Box::new(e))) }, m),
                ),
                Err(m) => Err(m),
            }
        } else if self.is_at(k + 1, Token::OpenBrace) {
            match self.parse_block_common(k + 1) {
                Ok((b2, m)) => {
                    let e = Expr { kind: ExprKind::Block(Box::new(b2)) };
                    assert(e.model() == SExpr::Block(b2.model()));
                    Ok(
                        (
                            Expr {
                                kind: ExprKind::If(Box::new(c), Box::new(b), Some(Box::new(e))),
                            },
                            m,
                        ),
                    )
                },
                Err(m) => Err(m),
            }
        } else {
            unexpected("`if` or a block after `else`")
        }
    }

    fn parse_attributes(&self, i: usize) -> (r: Result<(Vec<Attr>, usize), String>)
        requires
            i <= self.tokens@.len(),
        ensures
            match r {
                Ok((v, j)) => p_attrs(self.tokens@, i as int, Seq::empty()) == Some(
                    (attr_models(v@), j as int),
                ),
                Err(m) => p_attrs(self.tokens@, i as int, Seq::empty()) is None && is_parse_error(m@),
            },
    {
        let mut attrs: Vec<Attr> = Vec::new();
        let mut j = i;
        assert(attr_models(attrs@) =~= Seq::empty());
        loop
            invariant
                i <= j <= self.tokens@.len(),
                p_attrs(self.tokens@, i as int, Seq::empty()) == p_attrs(
                    self.tokens@,
                    j as int,
                    attr_models(attrs@),
                ),
            decreases self.tokens@.len() - j,
        {
            match self.peek(j) {
                Some(Token::CloseBracket) => return Ok((attrs, j + 1)),
                Some(Token::Identifier { id }) => {
                    let ghost before = attrs@;
                    let path = Path::new(id.clone());
                    attrs.push(Attr { path });
                    assert(attr_models(attrs@) =~= attr_models(before).push(seq![id@]));
                    j = j + 1;
                },
                _ => return unexpected("an identifier or `]` in attributes"),
            }
        }
    }

    fn parse_fn(&self) -> (r: Result<Node, String>)
        ensures
            match r {
                Ok(n) => p_fn(self.tokens@) == Some(n.model()),
                Err(m) => p_fn(self.tokens@) is None && is_parse_error(m@),
            },
    {
        let (attrs, a) = if self.is_at(0, Token::Hash) {
            if !self.is_at(1, Token::OpenBracket) {
                return unexpected("`[`");
            }
            match self.parse_attributes(2) {
                Ok(x) => x,
                Err(m) => return Err(m),
            }
        } else {
            let v: Vec<Attr> = Vec::new();
            assert(attr_models(v@) =~= Seq::empty());
            (v, 0)
        };
        let (vis, b) = if self.is_at(a, Token::Pub) {
            (VisibilityKind::Public, a + 1)
        } else {
            (VisibilityKind::Private, a)
        };
        if !self.is_at(b, Token::Fn) {
            return unexpected("`fn`");
        }
        let name = match self.peek(b + 1) {
            Some(Token::Identifier { id }) => id.clone(),
            _ => return unexpected("identifier"),
        };
        if !self.is_at(b + 2, Token::OpenParen) {
            return unexpected("`(`");
        }
        if !self.is_at(b + 3, Token::CloseParen) {
            return unexpected("`)`");
        }
        let (ret, d) = if self.is_at(b + 4, Token::RightArrow) {
            match self.parse_type(b + 5) {
                Ok(x) => x,
                Err(m) => return Err(m),
            }
        } else {
            (Type::Primitive(PrimitiveType::Void), b + 4)
        };
        let (body, _) = match self.parse_block_common(d) {
            Ok(x) => x,
            Err(m) => return Err(m),
        };
        let inputs: Vec<crate::ast::Param> = Vec::new();
        let node = Node {
            attrs,
            vis: Visibility { kind: vis },
            kind: NodeKind::Fn(
                Box::new(Fn { sig: FnSig { inputs, return_type: ret }, body: Some(Box::new(body)) }),
            ),
            identifier: Some(name),
        };
        assert(node.model().params =~= Seq::empty());
        Ok(node)
    }
}

} // verus!
