//! The whole pipeline: source text to listing.
use vstd::prelude::*;
use crate::ast::SNode;
use crate::codegen::{is_ssa, lir_build, lir_of, render, slots_ok};
use crate::hir::Body;
use crate::lexer::{Token, lex_from, lexemes};
use crate::lowering::{hir_build, lower_fn, node_lowerable};
use crate::parser::{Parser, p_fn};

verus! {

/// Compiles the source text of one function to the text of its listing.
///
/// On success the tokens of the input parse as a function item that
/// lowering supports, the item lowers to a graph, and the text renders the
/// listing of that graph, in which no register is assigned twice. It fails
/// only where the tokens of the input do not parse, the item cannot be
/// lowered, or code generation fails on the lowered graph.
pub fn compile(input: &String) -> (r: Result<String, String>)
    ensures
        r matches Ok(text) ==> exists|ts: Seq<Token>, n: SNode, b: Body|
            {
                &&& lexemes(ts) == lex_from(input@, 0)
                &&& p_fn(ts) == Some(n)
                &&& node_lowerable(n)
                &&& b.wf()
                &&& lower_fn(n) == Some(b.model())
                &&& lir_of(b) is Some
                &&& is_ssa(lir_of(b)->0)
                &&& slots_ok(b, lir_of(b)->0)
                &&& text@ == render(b, lir_of(b)->0)
            },
        r is Err ==> exists|ts: Seq<Token>|
            {
                &&& lexemes(ts) == lex_from(input@, 0)
                &&& (p_fn(ts) is None || !node_lowerable(p_fn(ts)->0) || exists|b: Body|
                    b.wf() && lower_fn(p_fn(ts)->0) == Some(b.model()) && lir_of(b) is None)
            },
{
    let mut parser = Parser::new();
    let node = match parser.parse(input) {
        Ok(n) => n,
        Err(m) => {
            assert(lexemes(parser.spec_tokens()) == lex_from(input@, 0));
            return Err(m);
        },
    };
    let ghost n = node.model();
    let ghost ts0 = parser.spec_tokens();
    let body = match hir_build(node) {
        Ok(b) => b,
        Err(m) => {
            assert(lexemes(ts0) == lex_from(input@, 0) && !node_lowerable(p_fn(ts0)->0));
            return Err(m);
        },
    };
    let ghost b = body;
    let ghost ts = parser.spec_tokens();
    let r = lir_build(body);
    assert(r is Ok ==> lexemes(ts) == lex_from(input@, 0) && p_fn(ts) == Some(n) && node_lowerable(n) && b.wf() && lower_fn(n) == Some(b.model()));
    assert(r is Err ==> lexemes(ts) == lex_from(input@, 0) && b.wf() && lower_fn(p_fn(ts)->0) == Some(b.model()) && lir_of(b) is None);
    r
}

} // verus!
