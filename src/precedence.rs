//! Operator precedence of the grammar: the tighter operator of two groups
//! first.
use vstd::prelude::*;
use crate::ast::{BinOpKind, SExpr};
use crate::lexer::Token;
use crate::parser::{
    cmp_op, is_cmp_at, level_op, p_comparison, p_expr, p_fold, p_level, p_operand, p_primary,
    p_unary, tok,
};

verus! {

/// The precedence of a binary operator token: comparisons bind loosest (0),
/// then `|`, `^`, `&`, shifts, additive and multiplicative operators (1 to 6).
pub open spec fn prec(t: Token) -> Option<nat> {
    match t {
        Token::Lt | Token::Gt | Token::LtEq | Token::GtEq | Token::EqEq | Token::NotEq => Some(0),
        Token::Or => Some(1),
        Token::Caret => Some(2),
        Token::And => Some(3),
        Token::ShiftLeft | Token::ShiftRight => Some(4),
        Token::Plus | Token::Minus => Some(5),
        Token::Star | Token::Slash | Token::Percent => Some(6),
        _ => None,
    }
}

/// The operator kind that a binary operator token stands for.
pub open spec fn op_kind(t: Token) -> Option<BinOpKind> {
    match prec(t) {
        Some(p) => if p == 0 {
            cmp_op(t)
        } else {
            level_op((p - 1) as nat, t)
        },
        None => None,
    }
}

/// The expression that an operand token stands for: a literal or a
/// one-segment path.
pub open spec fn lit(t: Token) -> SExpr {
    match t {
        Token::Number { number } => SExpr::Literal(number@),
        Token::Identifier { id } => SExpr::Path(seq![id@]),
        _ => SExpr::Literal(Seq::empty()),
    }
}

/// A number or an identifier.
pub open spec fn is_atom(t: Token) -> bool {
    t is Number || t is Identifier
}

/// The token at `i`, if any, is no operator of level `lvl` or above.
spec fn binds_below(ts: Seq<Token>, i: int, lvl: nat) -> bool {
    match tok(ts, i) {
        None => true,
        Some(t) => match prec(t) {
            None => true,
            Some(p) => p <= lvl,
        },
    }
}

proof fn lemma_level_op_prec(l: nat, t: Token)
    ensures
        level_op(l, t) is Some <==> prec(t) == Some(l + 1),
        (prec(t) is Some && prec(t)->0 > 0) ==> level_op((prec(t)->0 - 1) as nat, t) is Some,
        cmp_op(t) is Some <==> prec(t) == Some(0nat),
{
}

proof fn lemma_atom_operand(ts: Seq<Token>, i: int, lvl: nat)
    requires
        0 <= i < ts.len(),
        is_atom(ts[i]),
        lvl <= 5,
        binds_below(ts, i + 1, lvl + 1),
    ensures
        p_operand(ts, i, lvl) == Some((lit(ts[i]), i + 1)),
    decreases 5 - lvl, 0int,
{
    if lvl >= 5 {
        assert(p_primary(ts, i) == Some((lit(ts[i]), i + 1)));
        assert(p_unary(ts, i) == Some((lit(ts[i]), i + 1)));
    } else {
        lemma_atom_level(ts, i, lvl + 1);
    }
}

proof fn lemma_atom_level(ts: Seq<Token>, i: int, lvl: nat)
    requires
        0 <= i < ts.len(),
        is_atom(ts[i]),
        lvl <= 5,
        binds_below(ts, i + 1, lvl),
    ensures
        p_level(ts, i, lvl) == Some((lit(ts[i]), i + 1)),
    decreases 5 - lvl, 1int,
{
    lemma_atom_operand(ts, i, lvl);
    match tok(ts, i + 1) {
        Some(t) => lemma_level_op_prec(lvl, t),
        None => {},
    }
    assert(p_fold(ts, i + 1, lvl, lit(ts[i])) == Some((lit(ts[i]), i + 1)));
}

/// `a op b` at levels `lvl` to `l`, where `op` is of level `l`.
proof fn lemma_binop_level(ts: Seq<Token>, i: int, lvl: nat, l: nat)
    requires
        0 <= i,
        i + 2 < ts.len(),
        is_atom(ts[i]),
        is_atom(ts[i + 2]),
        prec(ts[i + 1]) == Some(l + 1),
        lvl <= l <= 5,
        binds_below(ts, i + 3, lvl),
    ensures
        p_level(ts, i, lvl) == Some(
            (
                SExpr::Binary(
                    Box::new(lit(ts[i])),
                    level_op(l, ts[i + 1])->0,
                    Box::new(lit(ts[i + 2])),
                ),
                i + 3,
            ),
        ),
    decreases l - lvl,
{
    let e = SExpr::Binary(
        Box::new(lit(ts[i])),
        level_op(l, ts[i + 1])->0,
        Box::new(lit(ts[i + 2])),
    );
    lemma_level_op_prec(l, ts[i + 1]);
    match tok(ts, i + 3) {
        Some(t) => lemma_level_op_prec(lvl, t),
        None => {},
    }
    if lvl == l {
        lemma_atom_operand(ts, i, l);
        lemma_atom_operand(ts, i + 2, l);
        assert(p_fold(ts, i + 3, l, e) == Some((e, i + 3)));
        assert(p_fold(ts, i + 1, l, lit(ts[i])) == Some((e, i + 3)));
    } else {
        lemma_binop_level(ts, i, lvl + 1, l);
        assert(p_operand(ts, i, lvl) == Some((e, i + 3)));
        assert(p_fold(ts, i + 3, lvl, e) == Some((e, i + 3)));
    }
}

/// `a op1 b op2 c` with two operators of levels `l1` and `l2`, parsed at
/// level `lvl`.
proof fn lemma_chain_level(ts: Seq<Token>, lvl: nat, l1: nat, l2: nat)
    requires
        ts.len() == 5,
        is_atom(ts[0]),
        is_atom(ts[2]),
        is_atom(ts[4]),
        prec(ts[1]) == Some(l1 + 1),
        prec(ts[3]) == Some(l2 + 1),
        l1 <= 5,
        l2 <= 5,
        l1 != l2,
        lvl <= if l1 < l2 {
            l1
        } else {
            l2
        },
    ensures
        l1 < l2 ==> p_level(ts, 0, lvl) == Some(
            (
                SExpr::Binary(
                    Box::new(lit(ts[0])),
                    level_op(l1, ts[1])->0,
                    Box::new(
                        SExpr::Binary(
                            Box::new(lit(ts[2])),
                            level_op(l2, ts[3])->0,
                            Box::new(lit(ts[4])),
                        ),
                    ),
                ),
                5int,
            ),
        ),
        l1 > l2 ==> p_level(ts, 0, lvl) == Some(
            (
                SExpr::Binary(
                    Box::new(
                        SExpr::Binary(
                            Box::new(lit(ts[0])),
                            level_op(l1, ts[1])->0,
                            Box::new(lit(ts[2])),
                        ),
                    ),
                    level_op(l2, ts[3])->0,
                    Box::new(lit(ts[4])),
                ),
                5int,
            ),
        ),
    decreases (if l1 < l2 {
        l1
    } else {
        l2
    }) - lvl,
{
    lemma_level_op_prec(l1, ts[1]);
    lemma_level_op_prec(l2, ts[3]);
    lemma_level_op_prec(lvl, ts[1]);
    lemma_level_op_prec(lvl, ts[3]);
    let low = if l1 < l2 {
        l1
    } else {
        l2
    };
    if lvl == low {
        if l1 < l2 {
            let inner = SExpr::Binary(
                Box::new(lit(ts[2])),
                level_op(l2, ts[3])->0,
                Box::new(lit(ts[4])),
            );
            let e = SExpr::Binary(Box::new(lit(ts[0])), level_op(l1, ts[1])->0, Box::new(inner));
            lemma_atom_operand(ts, 0, l1);
            lemma_binop_level(ts, 2, l1 + 1, l2);
            assert(p_operand(ts, 2, l1) == Some((inner, 5int)));
            assert(p_fold(ts, 5, l1, e) == Some((e, 5int)));
            assert(p_fold(ts, 1, l1, lit(ts[0])) == Some((e, 5int)));
        } else {
            let inner = SExpr::Binary(
                Box::new(lit(ts[0])),
                level_op(l1, ts[1])->0,
                Box::new(lit(ts[2])),
            );
            let e = SExpr::Binary(Box::new(inner), level_op(l2, ts[3])->0, Box::new(lit(ts[4])));
            lemma_binop_level(ts, 0, l2 + 1, l1);
            assert(p_operand(ts, 0, l2) == Some((inner, 3int)));
            lemma_atom_operand(ts, 4, l2);
            assert(p_fold(ts, 5, l2, e) == Some((e, 5int)));
            assert(p_fold(ts, 3, l2, inner) == Some((e, 5int)));
        }
    } else {
        lemma_chain_level(ts, lvl + 1, l1, l2);
        let r = (p_level(ts, 0, lvl + 1)->0).0;
        assert(p_operand(ts, 0, lvl) == Some((r, 5int)));
        assert(p_fold(ts, 5, lvl, r) == Some((r, 5int)));
    }
}

/// Of two binary operators in `a op1 b op2 c`, the one of higher
/// precedence groups with its operands first: `a op1 (b op2 c)` when `op2`
/// binds tighter, `(a op1 b) op2 c` when `op1` does.
pub proof fn lemma_precedence(ts: Seq<Token>)
    requires
        ts.len() == 5,
        is_atom(ts[0]),
        is_atom(ts[2]),
        is_atom(ts[4]),
        prec(ts[1]) is Some,
        prec(ts[3]) is Some,
        prec(ts[1]) != prec(ts[3]),
    ensures
        prec(ts[1])->0 < prec(ts[3])->0 ==> p_expr(ts, 0) == Some(
            (
                SExpr::Binary(
                    Box::new(lit(ts[0])),
                    op_kind(ts[1])->0,
                    Box::new(
                        SExpr::Binary(
                            Box::new(lit(ts[2])),
                            op_kind(ts[3])->0,
                            Box::new(lit(ts[4])),
                        ),
                    ),
                ),
                5int,
            ),
        ),
        prec(ts[1])->0 > prec(ts[3])->0 ==> p_expr(ts, 0) == Some(
            (
                SExpr::Binary(
                    Box::new(
                        SExpr::Binary(
                            Box::new(lit(ts[0])),
                            op_kind(ts[1])->0,
                            Box::new(lit(ts[2])),
                        ),
                    ),
                    op_kind(ts[3])->0,
                    Box::new(lit(ts[4])),
                ),
                5int,
            ),
        ),
{
    let p1 = prec(ts[1])->0;
    let p2 = prec(ts[3])->0;
    lemma_level_op_prec(0, ts[1]);
    lemma_level_op_prec(0, ts[3]);
    assert(tok(ts, 0) == Some(ts[0]));
    if p1 == 0 {
        let inner = SExpr::Binary(
            Box::new(lit(ts[2])),
            level_op((p2 - 1) as nat, ts[3])->0,
            Box::new(lit(ts[4])),
        );
        lemma_atom_level(ts, 0, 0);
        lemma_binop_level(ts, 2, 0, (p2 - 1) as nat);
        assert(!is_cmp_at(ts, 5));
        assert(p_comparison(ts, 0) == Some(
            (SExpr::Binary(Box::new(lit(ts[0])), cmp_op(ts[1])->0, Box::new(inner)), 5int),
        ));
    } else if p2 == 0 {
        let inner = SExpr::Binary(
            Box::new(lit(ts[0])),
            level_op((p1 - 1) as nat, ts[1])->0,
            Box::new(lit(ts[2])),
        );
        lemma_binop_level(ts, 0, 0, (p1 - 1) as nat);
        lemma_atom_level(ts, 4, 0);
        assert(!is_cmp_at(ts, 5));
        assert(p_comparison(ts, 0) == Some(
            (SExpr::Binary(Box::new(inner), cmp_op(ts[3])->0, Box::new(lit(ts[4]))), 5int),
        ));
    } else {
        lemma_chain_level(ts, 0, (p1 - 1) as nat, (p2 - 1) as nat);
        let r = (p_level(ts, 0, 0)->0).0;
        assert(!is_cmp_at(ts, 5));
        assert(p_comparison(ts, 0) == Some((r, 5int)));
    }
}

} // verus!
