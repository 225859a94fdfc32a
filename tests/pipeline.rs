use rustic::ast::{BinOpKind, ExprKind, NodeKind, StmtKind};
use rustic::driver::compile;
use rustic::parser::Parser;

fn lir(src: &str) -> String {
    compile(&src.to_string()).expect("compiles")
}

#[test]
fn zero_constant() {
    let out = lir("fn f() -> i32 { 0 }");
    let expected = "define i32 @f() {\n\
start:\n\
\x20   %retval = alloca i32, align 4\n\
\x20   br label %bb0\n\
bb0:\n\
\x20   store i32 0, i32* %retval\n\
\x20   %0 = load i32, i32* %retval\n\
\x20   ret i32 %0\n\
}\n";
    assert_eq!(out, expected);
}

#[test]
fn addition_of_constants() {
    let out = lir("fn f() -> i32 { 1 + 2 }");
    assert!(out.contains("    %0 = add i32 1, 0\n"));
    assert!(out.contains("    %1 = add i32 2, 0\n"));
    assert!(out.contains("    %2 = add i32 %0, %1\n"));
    assert!(out.contains("    store i32 %2, i32* %retval\n"));
    assert!(out.contains("    %3 = load i32, i32* %retval\n"));
    assert!(out.contains("    ret i32 %3\n"));
}

#[test]
fn precedence_of_multiplication() {
    let mut parser = Parser::new();
    let node = parser.parse(&"fn f() -> i32 { 1 + 2 * 3 }".to_string()).unwrap();
    let NodeKind::Fn(f) = node.kind;
    let body = f.body.unwrap();
    assert_eq!(body.stmts.len(), 1);
    match &body.stmts[0].kind {
        StmtKind::Expr(e) => match &e.kind {
            ExprKind::Binary(l, op, r) => {
                assert_eq!(*op, BinOpKind::Plus);
                assert!(matches!(&l.kind, ExprKind::Literal(v) if v == "1"));
                assert!(matches!(&r.kind, ExprKind::Binary(_, BinOpKind::Multiply, _)));
            }
            _ => panic!("expected a binary expression"),
        },
        _ => panic!("expected a tail expression"),
    }
    let out = lir("fn f() -> i32 { 1 + 2 * 3 }");
    let mul = out.find("= mul i32").expect("mul");
    let add = out.find("= add i32 %").expect("add");
    assert!(mul < add);
    assert!(out.contains("    %3 = mul i32 %1, %2\n"));
    assert!(out.contains("    %4 = add i32 %0, %3\n"));
}

#[test]
fn negation() {
    let out = lir("fn f() -> i32 { -5 }");
    let expected = "define i32 @f() {\n\
start:\n\
\x20   %retval = alloca i32, align 4\n\
\x20   br label %bb0\n\
bb0:\n\
\x20   store i32 5, i32* %retval\n\
\x20   %0 = load i32, i32* %retval\n\
\x20   %1 = sub i32 0, %0\n\
\x20   store i32 %1, i32* %retval\n\
\x20   %2 = load i32, i32* %retval\n\
\x20   ret i32 %2\n\
}\n";
    assert_eq!(out, expected);
}

#[test]
fn if_expression() {
    let out = lir("fn f() -> i32 { if 1 == 1 { 10 } else { 20 } }");
    let expected = "define i32 @f() {\n\
start:\n\
\x20   %retval = alloca i32, align 4\n\
\x20   br label %bb0\n\
bb0:\n\
\x20   %0 = add i1 1, 0\n\
\x20   %1 = add i1 1, 0\n\
\x20   %2 = icmp eq i1 %0, %1\n\
\x20   br i1 %2, label %bb1, label %bb2\n\
bb1:\n\
\x20   store i32 10, i32* %retval\n\
\x20   br label %bb3\n\
bb2:\n\
\x20   store i32 20, i32* %retval\n\
\x20   br label %bb3\n\
bb3:\n\
\x20   %3 = load i32, i32* %retval\n\
\x20   ret i32 %3\n\
}\n";
    assert_eq!(out, expected);
}

#[test]
fn shift() {
    let out = lir("fn f() -> i32 { 1 << 2 }");
    assert!(out.contains("    %2 = shl i32 %0, %1\n"));
}

#[test]
fn return_type_types_constants() {
    let out = lir("fn g() -> i16 { 0 }");
    assert!(out.starts_with("define i16 @g() {\n"));
    assert!(out.contains("    %retval = alloca i16, align 2\n"));
    assert!(out.contains("    store i16 0, i16* %retval\n"));
}

#[test]
fn many_registers_are_numbered_in_decimal() {
    let out = lir("fn f() -> i64 { 1 + 2 + 3 + 4 + 5 + 6 }");
    assert!(out.contains("    %10 = add i64 %8, %9\n"));
    assert!(out.contains("    %retval = alloca i64, align 8\n"));
}

#[test]
fn logical_not_and_remainder() {
    let out = lir("fn f() -> i8 { !(7 % 3) }");
    assert!(out.contains("= srem i8 %0, %1\n"));
    assert!(out.contains("= xor i8 %3, -1\n"));
}

#[test]
fn if_without_else_jumps_to_merge() {
    let out = lir("fn f() -> i32 { if 1 { 2 } }");
    assert!(out.contains("    br i1 %0, label %bb1, label %bb2\n"));
    assert!(out.contains("bb1:\n    store i32 2, i32* %retval\n    br label %bb2\n"));
    assert!(out.contains("bb2:\n    %1 = load i32, i32* %retval\n    ret i32 %1\n"));
}

#[test]
fn else_if_chain() {
    let out = lir("fn f() -> i32 { if 1 { 2 } else if 0 { 3 } else { 4 } }");
    assert!(out.contains("bb0:\n"));
    assert!(out.contains("bb6:\n"));
    assert_eq!(out.matches("ret i32").count(), 1);
}

#[test]
fn empty_void_function() {
    let out = lir("pub fn main() {}");
    assert!(out.starts_with("define void @main() {\n"));
    assert!(out.contains("    %retval = alloca void, align 0\n"));
    assert!(out.contains("    ret void %0\n"));
}

#[test]
fn compile_reports_parse_errors() {
    assert!(compile(&"fn f() -> i32 { 1 + }".to_string()).is_err());
    assert!(compile(&"fn f() -> bool { 1 }".to_string()).is_err());
    assert!(compile(&"fn f() -> i32 { 1 < 2 < 3 }".to_string()).is_err());
    assert!(compile(&"fn f() -> i32 { 1 ".to_string()).is_err());
    assert!(compile(&"".to_string()).is_err());
}

#[test]
fn compile_reports_lowering_errors() {
    assert!(compile(&"fn f() -> i32 { x }".to_string()).is_err());
    assert!(compile(&"fn f() -> i32 { let x = 1; 2 }".to_string()).is_err());
    assert!(compile(&"fn f() -> i32 { 1; }".to_string()).is_err());
    assert!(compile(&"fn f() -> i32 { 1 && 2 }".to_string()).is_err());
}

fn tail_expr(src: &str) -> rustic::ast::Expr {
    let mut parser = Parser::new();
    let node = parser.parse(&src.to_string()).unwrap();
    let NodeKind::Fn(f) = node.kind;
    let mut body = f.body.unwrap();
    match body.stmts.pop().unwrap().kind {
        StmtKind::Expr(e) => *e,
        _ => panic!("expected a tail expression"),
    }
}

fn shape(e: &rustic::ast::Expr) -> String {
    match &e.kind {
        ExprKind::Literal(v) => v.clone(),
        ExprKind::Binary(l, op, r) => format!("({} {:?} {})", shape(l), op, shape(r)),
        ExprKind::Unary(op, x) => format!("({:?} {})", op, shape(x)),
        _ => "?".to_string(),
    }
}

#[test]
fn tighter_operator_groups_first() {
    assert_eq!(shape(&tail_expr("fn f() { 1 - 2 * 3 }")), "(1 Minus (2 Multiply 3))");
    assert_eq!(shape(&tail_expr("fn f() { 1 * 2 - 3 }")), "((1 Multiply 2) Minus 3)");
    assert_eq!(shape(&tail_expr("fn f() { 1 | 2 ^ 3 }")), "(1 BitOr (2 BitXor 3))");
    assert_eq!(shape(&tail_expr("fn f() { 1 & 2 << 3 }")), "(1 BitAnd (2 ShiftLeft 3))");
    assert_eq!(shape(&tail_expr("fn f() { 1 < 2 + 3 }")), "(1 Lt (2 Plus 3))");
    assert_eq!(shape(&tail_expr("fn f() { 1 + 2 >= 3 }")), "((1 Plus 2) Ge 3)");
}

#[test]
fn equal_precedence_is_left_associative() {
    assert_eq!(shape(&tail_expr("fn f() { 1 - 2 - 3 }")), "((1 Minus 2) Minus 3)");
    assert_eq!(shape(&tail_expr("fn f() { 8 / 4 % 3 }")), "((8 Divide 4) Modulo 3)");
    assert_eq!(shape(&tail_expr("fn f() { (1 - 2) * -3 }")), "((1 Minus 2) Multiply (Negate 3))");
}

#[test]
fn parser_accepts_attributes_visibility_and_let() {
    let mut parser = Parser::new();
    let node = parser
        .parse(&"#[no_mangle inline] pub fn main() -> u64 { let x: i8 = 1; x }".to_string())
        .unwrap();
    assert_eq!(node.attrs.len(), 2);
    assert_eq!(node.attrs[1].path.segments[0].identifier, "inline");
    assert!(matches!(node.vis.kind, rustic::ast::VisibilityKind::Public));
    assert_eq!(node.identifier.as_deref(), Some("main"));
    let NodeKind::Fn(f) = node.kind;
    assert_eq!(f.sig.return_type, rustic::types::Type::Primitive(rustic::types::PrimitiveType::U64));
    let body = f.body.unwrap();
    assert_eq!(body.stmts.len(), 2);
    assert!(matches!(body.stmts[0].kind, StmtKind::Let(_)));
}

#[test]
fn parser_rejects_malformed_input() {
    let bad = [
        "",
        "fn",
        "fn f",
        "fn f(",
        "fn f() -> {",
        "fn f() -> i32 { ( 1 }",
        "fn f() -> i32 { 1 == 2 != 3 }",
        "fn f() -> i32 { if 1 { 2 } else 3 }",
        "#[1] fn f() {}",
        "#(fn f() {}",
        "fn f() { let = 1; }",
        "fn f() { let x 1; }",
        "fn f() { let x = 1 }",
    ];
    for src in bad {
        let mut parser = Parser::new();
        assert!(parser.parse(&src.to_string()).is_err(), "accepted {:?}", src);
    }
}

#[test]
fn parse_error_messages() {
    let err = |src: &str| Parser::new().parse(&src.to_string()).unwrap_err();
    assert_eq!(err("fn f() -> i32 { 1 + }"), "Unexpected token, expected primary");
    assert_eq!(err("fn f() -> bool { 1 }"), "Unknown type");
    assert!(err("fn f() -> i32 { 1 < 2 < 3 }").starts_with("Unexpected"));
    assert!(err("fn f() -> i32 { 1").starts_with("Unexpected"));
    assert!(err("").starts_with("Unexpected"));
}

#[test]
fn identifiers_group_like_numbers() {
    assert!(matches!(
        &tail_expr("fn f() { a + b * c }").kind,
        ExprKind::Binary(_, BinOpKind::Plus, r) if matches!(r.kind, ExprKind::Binary(_, BinOpKind::Multiply, _))
    ));
}
