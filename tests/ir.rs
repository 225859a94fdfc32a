use std::rc::Rc;

use rustic::ast::{
    Block, Expr, ExprKind, Fn, FnSig, Node, NodeKind, Param, Pat, PatKind, Path, Stmt, StmtKind,
    UnaryOpKind, Visibility, VisibilityKind,
};
use rustic::codegen::{lir_build, lir_listing, render_lir, Codegen, Instr, Value};
use rustic::graph::{graphify, node_label_of};
use rustic::hir::{
    BasicBlock, BasicBlockData, BinOp, Body, Const, LocalDecl, LocalInfo, Operand, Place, Rvalue,
    Statement, SwitchTargets, Terminator,
};
use rustic::lowering::hir_build;
use rustic::parser::Parser;
use rustic::types::{PrimitiveType, Type};

const I32: Type = Type::Primitive(PrimitiveType::I32);

fn lower(src: &str) -> Body {
    let mut p = Parser::new();
    let node = p.parse(&src.to_string()).expect("parses");
    hir_build(node).expect("lowers")
}

fn lit(v: &str) -> Expr {
    Expr { kind: ExprKind::Literal(v.to_string()) }
}

fn fn_node(name: Option<&str>, body: Option<Vec<Stmt>>, inputs: Vec<Param>) -> Node {
    Node {
        attrs: Vec::new(),
        vis: Visibility { kind: VisibilityKind::Private },
        kind: NodeKind::Fn(Box::new(Fn {
            sig: FnSig { inputs, return_type: I32 },
            body: body.map(|stmts| Box::new(Block { stmts })),
        })),
        identifier: name.map(|s| s.to_string()),
    }
}

fn tail(e: Expr) -> Stmt {
    Stmt { kind: StmtKind::Expr(Box::new(e)) }
}

#[test]
fn lowered_body_is_well_formed() {
    let body = lower("fn f() -> i32 { if 1 < 2 { 3 + 4 } else { if 0 { 5 } else { -6 } } }");
    assert_eq!(body.name, "f");
    assert_eq!(body.arg_count, 0);
    assert!(matches!(&body.local_decls[0].local_info, LocalInfo::User(n) if n == "retval"));
    assert_eq!(body.local_decls[0].size(), 4);
    let n = body.basic_blocks.len();
    for bb in &body.basic_blocks {
        let t = bb.terminator();
        for s in t.successors() {
            assert!(s.0 < n);
        }
        for st in &bb.statements {
            let Statement::Assign(p, _) = st;
            let Place::Local(i) = **p;
            assert!(i < body.local_decls.len());
        }
    }
}

#[test]
fn if_lowering_has_one_empty_merge_block() {
    let body = lower("fn f() -> i32 { if 1 { 2 } else { 3 } }");
    assert_eq!(body.basic_blocks.len(), 4);
    let end = &body.basic_blocks[3];
    assert!(end.statements.is_empty());
    assert!(matches!(end.terminator, Some(Terminator::Return)));
    let preds: Vec<usize> = (0..4)
        .filter(|&j| body.basic_blocks[j].terminator().successors().contains(&BasicBlock(3)))
        .collect();
    assert_eq!(preds, vec![1, 2]);
    for j in [1, 2] {
        assert!(matches!(
            body.basic_blocks[j].terminator,
            Some(Terminator::Goto { target: BasicBlock(3) })
        ));
    }
    match &body.basic_blocks[0].terminator {
        Some(Terminator::SwitchInt { targets, .. }) => {
            assert_eq!(targets.values, vec![0, 1]);
            assert_eq!(targets.blocks, vec![BasicBlock(1), BasicBlock(2)]);
        }
        _ => panic!("expected a switch"),
    }
}

#[test]
fn if_without_else_switches_to_merge() {
    let body = lower("fn f() -> i32 { if 1 { 2 } }");
    assert_eq!(body.basic_blocks.len(), 3);
    match &body.basic_blocks[0].terminator {
        Some(Terminator::SwitchInt { targets, .. }) => {
            assert_eq!(targets.blocks, vec![BasicBlock(1), BasicBlock(2)]);
        }
        _ => panic!("expected a switch"),
    }
    assert!(body.basic_blocks[2].statements.is_empty());
}

#[test]
fn constants_take_the_target_type_and_are_shared() {
    let body = lower("fn f() -> i64 { 7 }");
    assert_eq!(body.consts.len(), 1);
    assert_eq!(body.consts[0].value, "7");
    assert_eq!(body.consts[0].ty, Type::Primitive(PrimitiveType::I64));
    let Statement::Assign(_, rv) = &body.basic_blocks[0].statements[0];
    match &**rv {
        Rvalue::Use(Operand::Constant(c)) => assert!(Rc::ptr_eq(c, &body.consts[0])),
        _ => panic!("expected a constant"),
    }
}

#[test]
fn parameters_become_user_locals() {
    let param = Param { ty: I32, pat: Pat { kind: PatKind::Identifier("x".to_string()) } };
    assert_eq!(param.id(), "x");
    let node = fn_node(Some("g"), Some(vec![tail(lit("1"))]), vec![param]);
    let body = hir_build(node).unwrap();
    assert_eq!(body.arg_count, 1);
    assert!(matches!(&body.local_decls[1].local_info, LocalInfo::User(n) if n == "x"));
    let text = lir_build(body).unwrap();
    assert!(text.contains("    %retval = alloca i32, align 4\n    %x = alloca i32, align 4\n"));
}

#[test]
fn lowering_errors() {
    assert!(hir_build(fn_node(None, Some(vec![tail(lit("1"))]), Vec::new())).is_err());
    assert!(hir_build(fn_node(Some("f"), None, Vec::new())).is_err());
    let path = Expr { kind: ExprKind::Path(Path::new("y".to_string())) };
    assert!(hir_build(fn_node(Some("f"), Some(vec![tail(path)]), Vec::new())).is_err());
    let deref = Expr { kind: ExprKind::Unary(UnaryOpKind::Dereference, Box::new(lit("1"))) };
    assert!(hir_build(fn_node(Some("f"), Some(vec![tail(deref)]), Vec::new())).is_err());
    let two = vec![tail(lit("1")), tail(lit("2"))];
    assert!(hir_build(fn_node(Some("f"), Some(two), Vec::new())).is_err());
}

#[test]
fn listing_assigns_each_register_once() {
    let body = lower("fn f() -> i32 { if 1 == 2 { -(3 * 4) } else { 5 << 6 } }");
    let listing = lir_listing(&body).unwrap();
    let mut seen = std::collections::HashSet::new();
    for i in &listing {
        let d = match i {
            Instr::Copy { dst, .. }
            | Instr::Load { dst, .. }
            | Instr::Binary { dst, .. }
            | Instr::Unary { dst, .. } => Some(*dst),
            _ => None,
        };
        if let Some(d) = d {
            assert!(seen.insert(d), "register %{} assigned twice", d);
        }
    }
    assert!(seen.len() > 5);
}

#[test]
fn allocas_match_user_locals() {
    let param = Param { ty: Type::Primitive(PrimitiveType::I8), pat: Pat { kind: PatKind::Identifier("p".to_string()) } };
    let node = fn_node(Some("h"), Some(vec![tail(lit("1"))]), vec![param]);
    let body = hir_build(node).unwrap();
    let listing = lir_listing(&body).unwrap();
    assert!(matches!(listing[0], Instr::Alloca { slot: 0, .. }));
    assert!(matches!(listing[1], Instr::Alloca { slot: 1, ty: Type::Primitive(PrimitiveType::I8) }));
    assert!(matches!(listing[2], Instr::Jump(0)));
    assert_eq!(listing.iter().filter(|i| matches!(i, Instr::Alloca { .. })).count(), 2);
    let text = render_lir(&body, &listing);
    assert!(text.contains("    %p = alloca i8, align 1\n"));
    for line in text.lines().filter(|l| l.contains("load") || l.contains("store")) {
        assert!(line.ends_with("* %retval"));
    }
}

fn temp(ty: Type) -> LocalDecl {
    LocalDecl { mutable: false, ty, local_info: LocalInfo::Temp }
}

fn hand_body(blocks: Vec<BasicBlockData>, locals: Vec<LocalDecl>) -> Body {
    Body::new("k".to_string(), blocks, locals, Vec::new(), 0)
}

fn retval(ty: Type) -> LocalDecl {
    LocalDecl { mutable: false, ty, local_info: LocalInfo::User("retval".to_string()) }
}

#[test]
fn codegen_rejects_malformed_bodies() {
    let open = BasicBlockData { statements: Vec::new(), terminator: None };
    assert!(lir_build(hand_body(vec![open], vec![retval(I32)])).is_err());
    let read = Statement::Assign(
        Box::new(Place::Local(0)),
        Box::new(Rvalue::Use(Operand::Copy(Place::Local(1)))),
    );
    let bb = BasicBlockData { statements: vec![read], terminator: Some(Terminator::Return) };
    assert!(lir_build(hand_body(vec![bb], vec![retval(I32), temp(I32)])).is_err());
    let jump = BasicBlockData {
        statements: Vec::new(),
        terminator: Some(Terminator::Goto { target: BasicBlock(9) }),
    };
    assert!(lir_build(hand_body(vec![jump], vec![retval(I32)])).is_err());
}

#[test]
fn wider_operand_type_wins() {
    let c8 = Rc::new(Const { ty: Type::Primitive(PrimitiveType::I8), value: "1".to_string() });
    let c64 = Rc::new(Const { ty: Type::Primitive(PrimitiveType::I64), value: "2".to_string() });
    let c32 = Rc::new(Const { ty: I32, value: "3".to_string() });
    let st = |a: &Rc<Const>, b: &Rc<Const>| {
        Statement::Assign(
            Box::new(Place::Local(0)),
            Box::new(Rvalue::BinaryOp(
                BinOp::Add,
                Box::new(Operand::Constant(a.clone())),
                Box::new(Operand::Constant(b.clone())),
            )),
        )
    };
    let bb = BasicBlockData {
        statements: vec![st(&c8, &c64), st(&c32, &c32), st(&c32, &Rc::new(Const { ty: Type::Primitive(PrimitiveType::U32), value: "4".to_string() }))],
        terminator: Some(Terminator::Return),
    };
    let body = hand_body(vec![bb], vec![retval(I32)]);
    assert_eq!(body.get_operand_type(&Operand::Constant(c8.clone())), Type::Primitive(PrimitiveType::I8));
    let text = lir_build(body).unwrap();
    assert!(text.contains("    %0 = add i64 1, 2\n"));
    assert!(text.contains("    %1 = add i32 3, 3\n"));
    assert!(text.contains("    %2 = add i32 3, 4\n"));
}

#[test]
fn codegen_struct_entry_point() {
    let body = lower("fn z() -> i32 { 0 }");
    let mut cg = Codegen::new(body);
    let text = cg.build_lir().unwrap();
    assert!(text.starts_with("define i32 @z() {\nstart:\n"));
    assert!(text.ends_with("    ret i32 %0\n}\n"));
}

#[test]
fn value_and_instruction_rendering() {
    let body = hand_body(Vec::new(), vec![retval(I32)]);
    let listing = vec![
        Instr::Label(12),
        Instr::Unary { dst: 3, op: rustic::hir::UnOp::Not, ty: I32, arg: Value::Const(Rc::new(Const { ty: I32, value: "5".to_string() })) },
        Instr::CondJump { ty: Type::Primitive(PrimitiveType::I1), cond: Value::Reg(3), on_true: 1, on_false: 2 },
        Instr::Binary { dst: 4, op: BinOp::Ge, ty: I32, lhs: Value::Reg(3), rhs: Value::Const(Rc::new(Const { ty: I32, value: "0".to_string() })) },
    ];
    let text = render_lir(&body, &listing);
    assert_eq!(
        text,
        "define i32 @k() {\nstart:\nbb12:\n    %3 = xor i32 5, -1\n    br i1 %3, label %bb1, label %bb2\n    %4 = icmp sge i32 %3, 0\n}\n"
    );
}

#[test]
fn graph_of_an_if() {
    let body = lower("fn f() -> i32 { if 1 { 2 } else { 3 } }");
    let g = graphify(&body).unwrap();
    assert_eq!(g.node_count(), 4);
    assert_eq!(g.edge_count(), 4);
    let label = node_label_of(&body.basic_blocks[0]);
    assert_eq!(label, "%1 = 1: i1\nswitch(copy %1)");
    assert_eq!(node_label_of(&body.basic_blocks[1]), "%0 = 2: i32\n");
    assert_eq!(node_label_of(&body.basic_blocks[3]), "return");
    let weights: Vec<&String> = g.edge_weights().collect();
    assert_eq!(weights, vec!["0", "1", "", ""]);
}

#[test]
fn negative_switch_values_are_labelled() {
    let targets = SwitchTargets { values: vec![-5, i128::MIN], blocks: vec![BasicBlock(0), BasicBlock(0)] };
    let t = Terminator::SwitchInt { value: Operand::Copy(Place::Local(0)), targets };
    assert_eq!(t.successor(), BasicBlock(0));
    let body = hand_body(
        vec![BasicBlockData { statements: Vec::new(), terminator: Some(t) }],
        vec![retval(I32)],
    );
    let g = graphify(&body).unwrap();
    let weights: Vec<&String> = g.edge_weights().collect();
    assert_eq!(weights, vec!["-5", "-170141183460469231731687303715884105728"]);
}

#[test]
fn types_have_sizes_and_names() {
    let all = [
        (PrimitiveType::Void, 0, "void"),
        (PrimitiveType::I1, 1, "i1"),
        (PrimitiveType::I8, 1, "i8"),
        (PrimitiveType::I16, 2, "i16"),
        (PrimitiveType::I32, 4, "i32"),
        (PrimitiveType::I64, 8, "i64"),
        (PrimitiveType::U8, 1, "u8"),
        (PrimitiveType::U16, 2, "u16"),
        (PrimitiveType::U32, 4, "u32"),
        (PrimitiveType::U64, 8, "u64"),
        (PrimitiveType::F32, 4, "f32"),
        (PrimitiveType::F64, 8, "f64"),
    ];
    for (p, size, name) in all {
        let t = Type::Primitive(p);
        assert_eq!(t.size(), size);
        assert_eq!(t.name(), name);
        assert_eq!(p.name(), name);
    }
}

fn assign(d: usize, rv: Rvalue) -> Statement {
    Statement::Assign(Box::new(Place::Local(d)), Box::new(rv))
}

fn konst(v: &str) -> Operand {
    Operand::Constant(Rc::new(Const { ty: I32, value: v.to_string() }))
}

#[test]
fn copies_load_from_the_place_map_entry() {
    let bb = BasicBlockData {
        statements: vec![
            assign(1, Rvalue::Use(konst("3"))),
            assign(2, Rvalue::Use(Operand::Copy(Place::Local(1)))),
            assign(0, Rvalue::Use(Operand::Copy(Place::Local(2)))),
        ],
        terminator: Some(Terminator::Return),
    };
    let text = lir_build(hand_body(vec![bb], vec![retval(I32), temp(I32), temp(I32)])).unwrap();
    assert_eq!(
        text,
        "define i32 @k() {\nstart:\n    %retval = alloca i32, align 4\n    br label %bb0\nbb0:\n    %0 = add i32 3, 0\n    %1 = load i32, i32* %0\n    %2 = load i32, i32* %1\n    store i32 %2, i32* %retval\n    %3 = load i32, i32* %retval\n    ret i32 %3\n}\n"
    );
}

#[test]
fn user_local_operands_read_their_slot() {
    let bb = BasicBlockData {
        statements: vec![
            assign(0, Rvalue::Use(konst("2"))),
            assign(
                1,
                Rvalue::BinaryOp(
                    BinOp::Add,
                    Box::new(Operand::Copy(Place::Local(0))),
                    Box::new(konst("1")),
                ),
            ),
            assign(0, Rvalue::Use(Operand::Copy(Place::Local(1)))),
        ],
        terminator: Some(Terminator::Return),
    };
    let text = lir_build(hand_body(vec![bb], vec![retval(I32), temp(I32)])).unwrap();
    assert!(text.contains(
        "bb0:\n    store i32 2, i32* %retval\n    %0 = add i32 %retval, 1\n    %1 = load i32, i32* %0\n    store i32 %1, i32* %retval\n    %2 = load i32, i32* %retval\n    ret i32 %2\n"
    ));
}

#[test]
fn missing_body_message() {
    let err = hir_build(fn_node(None, None, Vec::new())).unwrap_err();
    assert_eq!(err, "Function body is missing");
}
