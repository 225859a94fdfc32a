//! Emission of the textual low-level listing from the control flow graph.
//!
//! Code generation first builds the listing as a sequence of instructions
//! (`Instr`), then renders it as text. User locals live in stack slots,
//! named after the local; every other value is a numbered register that is
//! assigned once.
use vstd::prelude::*;
use std::rc::Rc;
use crate::hir::{
    BasicBlock, BinOp, Body, Const, LocalInfo, share, Operand, Place, Rvalue, Statement, Terminator, UnOp,
};
use crate::text::{decimal, lemma_decimal_injective, push_char, push_decimal};
use crate::types::Type;

verus! {

/// A value: a numbered register, the stack slot of a user local (written
/// `%name`), or a constant written as its text.
#[derive(Debug)]
pub enum Value {
    Reg(usize),
    Slot(usize),
    Const(Rc<Const>),
}

/// Where the value of a local is found: a register, or the local's own
/// stack slot.
#[derive(Clone, Copy, Debug, PartialEq, Eq, Structural)]
pub enum Loc {
    Reg(usize),
    Slot(usize),
}

/// A slot that a `place_map` entry names is a user local.
pub open spec fn loc_ok(body: Body, l: Option<Loc>) -> bool {
    l matches Some(Loc::Slot(x)) ==> is_user(body, x as int)
}

pub open spec fn loc_value(l: Loc) -> Value {
    match l {
        Loc::Reg(r) => Value::Reg(r),
        Loc::Slot(s) => Value::Slot(s),
    }
}

/// One line of the listing.
#[derive(Debug)]
pub enum Instr {
    /// `bbN:`
    Label(usize),
    /// `%name = alloca ty, align size` for the user local `slot`.
    Alloca { slot: usize, ty: Type },
    /// `br label %bbN`
    Jump(usize),
    /// `br ty cond, label %bbT, label %bbF`
    CondJump { ty: Type, cond: Value, on_true: usize, on_false: usize },
    /// `%dst = add ty value, 0`
    Copy { dst: usize, ty: Type, value: Value },
    /// `%dst = load ty, ty* ptr`
    Load { dst: usize, ty: Type, ptr: Value },
    /// `store ty value, ty* %name`
    Store { ty: Type, value: Value, slot: usize },
    /// `%dst = op ty a, b`
    Binary { dst: usize, op: BinOp, ty: Type, lhs: Value, rhs: Value },
    /// `%dst = sub ty 0, a` or `%dst = xor ty a, -1`
    Unary { dst: usize, op: UnOp, ty: Type, arg: Value },
    /// `ret ty value`
    Ret { ty: Type, value: Value },
}

/// The register that an instruction assigns, if any.
pub open spec fn dst_of(i: Instr) -> Option<usize> {
    match i {
        Instr::Copy { dst, .. } => Some(dst),
        Instr::Load { dst, .. } => Some(dst),
        Instr::Binary { dst, .. } => Some(dst),
        Instr::Unary { dst, .. } => Some(dst),
        _ => None,
    }
}

/// The stack slot that an instruction allocates or stores to, if any.
pub open spec fn slot_of(i: Instr) -> Option<usize> {
    match i {
        Instr::Alloca { slot, .. } => Some(slot),
        Instr::Store { slot, .. } => Some(slot),
        _ => None,
    }
}

/// A slot that a value names is a user local.
pub open spec fn value_ok(body: Body, v: Value) -> bool {
    match v {
        Value::Slot(s) => is_user(body, s as int),
        _ => true,
    }
}

/// Every stack slot that an instruction names is a user local.
pub open spec fn refs_ok(body: Body, i: Instr) -> bool {
    &&& (slot_of(i) matches Some(s) ==> is_user(body, s as int))
    &&& match i {
        Instr::CondJump { cond, .. } => value_ok(body, cond),
        Instr::Copy { value, .. } => value_ok(body, value),
        Instr::Load { ptr, .. } => value_ok(body, ptr),
        Instr::Store { value, .. } => value_ok(body, value),
        Instr::Binary { lhs, rhs, .. } => value_ok(body, lhs) && value_ok(body, rhs),
        Instr::Unary { arg, .. } => value_ok(body, arg),
        Instr::Ret { value, .. } => value_ok(body, value),
        _ => true,
    }
}

/// No register is assigned by two instructions.
pub open spec fn is_ssa(l: Seq<Instr>) -> bool {
    forall|a: int, b: int|
        0 <= a < b < l.len() && (#[trigger] dst_of(l[a])) is Some && (#[trigger] dst_of(l[b])) is Some
            ==> dst_of(l[a]) != dst_of(l[b])
}

pub open spec fn is_user(body: Body, slot: int) -> bool {
    0 <= slot < body.local_decls@.len() && body.local_decls@[slot].local_info is User
}

/// The indices of the user locals among the first `n` declarations, in order.
pub open spec fn user_slots(body: Body, n: int) -> Seq<usize>
    decreases n,
{
    if n <= 0 {
        Seq::empty()
    } else if is_user(body, n - 1) {
        user_slots(body, n - 1).push((n - 1) as usize)
    } else {
        user_slots(body, n - 1)
    }
}

/// The listing opens with one `alloca` per user local, in order of
/// declaration, and has no other; every slot that it names is a user
/// local.
pub open spec fn slots_ok(body: Body, l: Seq<Instr>) -> bool {
    let us = user_slots(body, body.local_decls@.len() as int);
    &&& us.len() <= l.len()
    &&& forall|j: int|
        0 <= j < us.len() ==> l[j] == (Instr::Alloca {
            slot: us[j],
            ty: body.local_decls@[us[j] as int].ty,
        })
    &&& forall|j: int| us.len() <= j < l.len() ==> !(l[j] is Alloca)
    &&& forall|j: int| 0 <= j < l.len() ==> refs_ok(body, #[trigger] l[j])
}

pub open spec fn reg_text(n: nat) -> Seq<char> {
    seq!['%'] + decimal(n)
}

pub open spec fn value_text(body: Body, v: Value) -> Seq<char> {
    match v {
        Value::Reg(n) => reg_text(n as nat),
        Value::Slot(s) => slot_text(body, s),
        Value::Const(c) => c.value@,
    }
}

pub open spec fn slot_text(body: Body, slot: usize) -> Seq<char> {
    seq!['%'] + match body.local_decls@[slot as int].local_info {
        LocalInfo::User(n) => n@,
        LocalInfo::Temp => Seq::empty(),
    }
}

/// The mnemonic of a binary operator.
pub open spec fn mnemonic(op: BinOp) -> Seq<char> {
    match op {
        BinOp::Add => "add"@,
        BinOp::Sub => "sub"@,
        BinOp::Mul => "mul"@,
        BinOp::Div => "sdiv"@,
        BinOp::Rem => "srem"@,
        BinOp::ShiftLeft => "shl"@,
        BinOp::ShiftRight => "lshr"@,
        BinOp::BitAnd => "and"@,
        BinOp::BitOr => "or"@,
        BinOp::BitXor => "xor"@,
        BinOp::Eq => "icmp eq"@,
        BinOp::Ne => "icmp ne"@,
        BinOp::Lt => "icmp slt"@,
        BinOp::Gt => "icmp sgt"@,
        BinOp::Le => "icmp sle"@,
        BinOp::Ge => "icmp sge"@,
    }
}

/// The text of one instruction, with its line break.
pub open spec fn render_instr(body: Body, i: Instr) -> Seq<char> {
    match i {
        Instr::Label(n) => "bb"@ + decimal(n as nat) + ":\n"@,
        Instr::Alloca { slot, ty } => "    "@ + slot_text(body, slot) + " = alloca "@
            + ty.spec_name() + ", align "@ + decimal(ty.spec_size()) + "\n"@,
        Instr::Jump(n) => "    br label %bb"@ + decimal(n as nat) + "\n"@,
        Instr::CondJump { ty, cond, on_true, on_false } => "    br "@ + ty.spec_name() + " "@
            + value_text(body, cond) + ", label %bb"@ + decimal(on_true as nat) + ", label %bb"@
            + decimal(on_false as nat) + "\n"@,
        Instr::Copy { dst, ty, value } => "    "@ + reg_text(dst as nat) + " = add "@
            + ty.spec_name() + " "@ + value_text(body, value) + ", 0\n"@,
        Instr::Load { dst, ty, ptr } => "    "@ + reg_text(dst as nat) + " = load "@
            + ty.spec_name() + ", "@ + ty.spec_name() + "* "@ + value_text(body, ptr) + "\n"@,
        Instr::Store { ty, value, slot } => "    store "@ + ty.spec_name() + " "@ + value_text(
            body,
            value,
        ) + ", "@ + ty.spec_name() + "* "@ + slot_text(body, slot) + "\n"@,
        Instr::Binary { dst, op, ty, lhs, rhs } => "    "@ + reg_text(dst as nat) + " = "@
            + mnemonic(op) + " "@ + ty.spec_name() + " "@ + value_text(body, lhs) + ", "@ + value_text(
            body,
            rhs,
        ) + "\n"@,
        Instr::Unary { dst, op, ty, arg } => match op {
            UnOp::Neg => "    "@ + reg_text(dst as nat) + " = sub "@ + ty.spec_name() + " 0, "@
                + value_text(body, arg) + "\n"@,
            UnOp::Not => "    "@ + reg_text(dst as nat) + " = xor "@ + ty.spec_name() + " "@
                + value_text(body, arg) + ", -1\n"@,
        },
        Instr::Ret { ty, value } => "    ret "@ + ty.spec_name() + " "@ + value_text(body, value)
            + "\n"@,
    }
}

pub open spec fn render_all(body: Body, l: Seq<Instr>) -> Seq<char>
    decreases l.len(),
{
    if l.len() == 0 {
        Seq::empty()
    } else {
        render_all(body, l.drop_last()) + render_instr(body, l.last())
    }
}

/// The whole function definition.
pub open spec fn render(body: Body, l: Seq<Instr>) -> Seq<char> {
    "define "@ + body.local_decls@[0].ty.spec_name() + " @"@ + body.name@ + "() {\nstart:\n"@
        + render_all(body, l) + "}\n"@
}

fn push_reg(out: &mut String, n: usize)
    ensures
        final(out)@ == old(out)@ + reg_text(n as nat),
{
    push_char(out, '%');
    push_decimal(out, n as u128);
    assert(final(out)@ =~= old(out)@ + reg_text(n as nat));
}

fn push_value(out: &mut String, body: &Body, v: &Value)
    requires
        value_ok(*body, *v),
    ensures
        final(out)@ == old(out)@ + value_text(*body, *v),
{
    match v {
        Value::Reg(n) => push_reg(out, *n),
        Value::Slot(s) => push_slot(out, body, *s),
        Value::Const(c) => out.append(c.value.as_str()),
    }
}

fn push_slot(out: &mut String, body: &Body, slot: usize)
    requires
        slot < body.local_decls@.len(),
    ensures
        final(out)@ == old(out)@ + slot_text(*body, slot),
{
    push_char(out, '%');
    match &body.local_decls[slot].local_info {
        LocalInfo::User(n) => out.append(n.as_str()),
        LocalInfo::Temp => {},
    }
    assert(final(out)@ =~= old(out)@ + slot_text(*body, slot));
}

fn mnemonic_of(op: BinOp) -> (r: &'static str)
    ensures
        r@ == mnemonic(op),
{
    match op {
        BinOp::Add => "add",
        BinOp::Sub => "sub",
        BinOp::Mul => "mul",
        BinOp::Div => "sdiv",
        BinOp::Rem => "srem",
        BinOp::ShiftLeft => "shl",
        BinOp::ShiftRight => "lshr",
        BinOp::BitAnd => "and",
        BinOp::BitOr => "or",
        BinOp::BitXor => "xor",
        BinOp::Eq => "icmp eq",
        BinOp::Ne => "icmp ne",
        BinOp::Lt => "icmp slt",
        BinOp::Gt => "icmp sgt",
        BinOp::Le => "icmp sle",
        BinOp::Ge => "icmp sge",
    }
}

fn push_label(out: &mut String, body: &Body, n: usize)
    requires
        refs_ok(*body, Instr::Label(n)),
    ensures
        final(out)@ == old(out)@ + render_instr(*body, Instr::Label(n)),
{
    out.append("bb");
    push_decimal(out, n as u128);
    out.append(":\n");
    assert(final(out)@ =~= old(out)@ + render_instr(*body, Instr::Label(n)));
}

fn push_alloca(out: &mut String, body: &Body, slot: usize, ty: Type)
    requires
        refs_ok(*body, Instr::Alloca { slot, ty }),
    ensures
        final(out)@ == old(out)@ + render_instr(*body, Instr::Alloca { slot, ty }),
{
    out.append("    ");
    push_slot(out, body, slot);
    out.append(" = alloca ");
    out.append(ty.name());
    out.append(", align ");
    push_decimal(out, ty.size() as u128);
    out.append("\n");
    assert(final(out)@ =~= old(out)@ + render_instr(*body, Instr::Alloca { slot, ty }));
}

fn push_jump(out: &mut String, body: &Body, n: usize)
    requires
        refs_ok(*body, Instr::Jump(n)),
    ensures
        final(out)@ == old(out)@ + render_instr(*body, Instr::Jump(n)),
{
    out.append("    br label %bb");
    push_decimal(out, n as u128);
    out.append("\n");
    assert(final(out)@ =~= old(out)@ + render_instr(*body, Instr::Jump(n)));
}

fn push_cond_jump(out: &mut String, body: &Body, ty: Type, cond: &Value, on_true: usize, on_false: usize)
    requires
        refs_ok(*body, Instr::CondJump { ty, cond: *cond, on_true, on_false }),
    ensures
        final(out)@ == old(out)@ + render_instr(*body, Instr::CondJump { ty, cond: *cond, on_true, on_false }),
{
    out.append("    br ");
    out.append(ty.name());
    out.append(" ");
    push_value(out, body, cond);
    out.append(", label %bb");
    push_decimal(out, on_true as u128);
    out.append(", label %bb");
    push_decimal(out, on_false as u128);
    out.append("\n");
    assert(final(out)@ =~= old(out)@ + render_instr(*body, Instr::CondJump { ty, cond: *cond, on_true, on_false }));
}

fn push_copy(out: &mut String, body: &Body, dst: usize, ty: Type, value: &Value)
    requires
        refs_ok(*body, Instr::Copy { dst, ty, value: *value }),
    ensures
        final(out)@ == old(out)@ + render_instr(*body, Instr::Copy { dst, ty, value: *value }),
{
    out.append("    ");
    push_reg(out, dst);
    out.append(" = add ");
    out.append(ty.name());
    out.append(" ");
    push_value(out, body, value);
    out.append(", 0\n");
    assert(final(out)@ =~= old(out)@ + render_instr(*body, Instr::Copy { dst, ty, value: *value }));
}

fn push_load(out: &mut String, body: &Body, dst: usize, ty: Type, ptr: &Value)
    requires
        refs_ok(*body, Instr::Load { dst, ty, ptr: *ptr }),
    ensures
        final(out)@ == old(out)@ + render_instr(*body, Instr::Load { dst, ty, ptr: *ptr }),
{
    out.append("    ");
    push_reg(out, dst);
    out.append(" = load ");
    out.append(ty.name());
    out.append(", ");
    out.append(ty.name());
    out.append("* ");
    push_value(out, body, ptr);
    out.append("\n");
    assert(final(out)@ =~= old(out)@ + render_instr(*body, Instr::Load { dst, ty, ptr: *ptr }));
}

fn push_store(out: &mut String, body: &Body, ty: Type, value: &Value, slot: usize)
    requires
        refs_ok(*body, Instr::Store { ty, value: *value, slot }),
    ensures
        final(out)@ == old(out)@ + render_instr(*body, Instr::Store { ty, value: *value, slot }),
{
    out.append("    store ");
    out.append(ty.name());
    out.append(" ");
    push_value(out, body, value);
    out.append(", ");
    out.append(ty.name());
    out.append("* ");
    push_slot(out, body, slot);
    out.append("\n");
    assert(final(out)@ =~= old(out)@ + render_instr(*body, Instr::Store { ty, value: *value, slot }));
}

fn push_binary(out: &mut String, body: &Body, dst: usize, op: BinOp, ty: Type, lhs: &Value, rhs: &Value)
    requires
        refs_ok(*body, Instr::Binary { dst, op, ty, lhs: *lhs, rhs: *rhs }),
    ensures
        final(out)@ == old(out)@ + render_instr(*body, Instr::Binary { dst, op, ty, lhs: *lhs, rhs: *rhs }),
{
    out.append("    ");
    push_reg(out, dst);
    out.append(" = ");
    out.append(mnemonic_of(op));
    out.append(" ");
    out.append(ty.name());
    out.append(" ");
    push_value(out, body, lhs);
    out.append(", ");
    push_value(out, body, rhs);
    out.append("\n");
    assert(final(out)@ =~= old(out)@ + render_instr(*body, Instr::Binary { dst, op, ty, lhs: *lhs, rhs: *rhs }));
}

fn push_neg(out: &mut String, body: &Body, dst: usize, ty: Type, arg: &Value)
    requires
        refs_ok(*body, Instr::Unary { dst, op: UnOp::Neg, ty, arg: *arg }),
    ensures
        final(out)@ == old(out)@ + render_instr(*body, Instr::Unary { dst, op: UnOp::Neg, ty, arg: *arg }),
{
    out.append("    ");
    push_reg(out, dst);
    out.append(" = sub ");
    out.append(ty.name());
    out.append(" 0, ");
    push_value(out, body, arg);
    out.append("\n");
    assert(final(out)@ =~= old(out)@ + render_instr(*body, Instr::Unary { dst, op: UnOp::Neg, ty, arg: *arg }));
}

fn push_not(out: &mut String, body: &Body, dst: usize, ty: Type, arg: &Value)
    requires
        refs_ok(*body, Instr::Unary { dst, op: UnOp::Not, ty, arg: *arg }),
    ensures
        final(out)@ == old(out)@ + render_instr(*body, Instr::Unary { dst, op: UnOp::Not, ty, arg: *arg }),
{
    out.append("    ");
    push_reg(out, dst);
    out.append(" = xor ");
    out.append(ty.name());
    out.append(" ");
    push_value(out, body, arg);
    out.append(", -1\n");
    assert(final(out)@ =~= old(out)@ + render_instr(*body, Instr::Unary { dst, op: UnOp::Not, ty, arg: *arg }));
}

fn push_ret(out: &mut String, body: &Body, ty: Type, value: &Value)
    requires
        refs_ok(*body, Instr::Ret { ty, value: *value }),
    ensures
        final(out)@ == old(out)@ + render_instr(*body, Instr::Ret { ty, value: *value }),
{
    out.append("    ret ");
    out.append(ty.name());
    out.append(" ");
    push_value(out, body, value);
    out.append("\n");
    assert(final(out)@ =~= old(out)@ + render_instr(*body, Instr::Ret { ty, value: *value }));
}

/// Appends the text of one instruction.
fn push_instr(out: &mut String, body: &Body, i: &Instr)
    requires
        refs_ok(*body, *i),
    ensures
        final(out)@ == old(out)@ + render_instr(*body, *i),
{
    match i {
        Instr::Label(n) => push_label(out, body, *n),
        Instr::Alloca { slot, ty } => push_alloca(out, body, *slot, *ty),
        Instr::Jump(n) => push_jump(out, body, *n),
        Instr::CondJump { ty, cond, on_true, on_false } => push_cond_jump(
            out,
            body,
            *ty,
            cond,
            *on_true,
            *on_false,
        ),
        Instr::Copy { dst, ty, value } => push_copy(out, body, *dst, *ty, value),
        Instr::Load { dst, ty, ptr } => push_load(out, body, *dst, *ty, ptr),
        Instr::Store { ty, value, slot } => push_store(out, body, *ty, value, *slot),
        Instr::Binary { dst, op, ty, lhs, rhs } => push_binary(out, body, *dst, *op, *ty, lhs, rhs),
        Instr::Unary { dst, op, ty, arg } => match op {
            UnOp::Neg => push_neg(out, body, *dst, *ty, arg),
            UnOp::Not => push_not(out, body, *dst, *ty, arg),
        },
        Instr::Ret { ty, value } => push_ret(out, body, *ty, value),
    }
}

/// Renders a listing as the text of one function definition.
pub fn render_lir(body: &Body, listing: &Vec<Instr>) -> (r: String)
    requires
        body.local_decls@.len() > 0,
        forall|j: int| 0 <= j < listing@.len() ==> refs_ok(*body, #[trigger] listing@[j]),
    ensures
        r@ == render(*body, listing@),
{
    let mut out = String::new();
    out.append("define ");
    out.append(body.local_decls[0].ty.name());
    out.append(" @");
    out.append(body.name.as_str());
    out.append("() {\nstart:\n");
    let ghost head = out@;
    let mut i: usize = 0;
    while i < listing.len()
        invariant
            i <= listing@.len(),
            out@ == head + render_all(*body, listing@.subrange(0, i as int)),
            forall|j: int| 0 <= j < listing@.len() ==> refs_ok(*body, #[trigger] listing@[j]),
        decreases listing@.len() - i,
    {
        assert(refs_ok(*body, listing@[i as int]));
        push_instr(&mut out, body, &listing[i]);
        assert(listing@.subrange(0, i + 1).drop_last() =~= listing@.subrange(0, i as int));
        i = i + 1;
        assert(out@ =~= head + render_all(*body, listing@.subrange(0, i as int)));
    }
    out.append("}\n");
    assert(listing@.subrange(0, listing@.len() as int) =~= listing@);
    assert(out@ =~= render(*body, listing@));
    out
}


/// The state of code generation: the next free register, where the value
/// of each local is found (`place_map`), and the listing so far.
pub ghost struct CgState {
    pub reg: nat,
    pub map: Seq<Option<Loc>>,
    pub listing: Seq<Instr>,
}

pub open spec fn cg_emit(s: CgState, i: Instr) -> CgState {
    CgState { listing: s.listing.push(i), ..s }
}

pub open spec fn cg_emit_def(s: CgState, i: Instr) -> CgState {
    CgState { listing: s.listing.push(i), reg: s.reg + 1, ..s }
}

/// `s` with the value of local `d` found at `l`.
pub open spec fn with_loc(s: CgState, d: nat, l: Loc) -> CgState {
    CgState { map: s.map.update(d as int, Some(l)), ..s }
}

pub open spec fn operand_local(o: Operand) -> Option<usize> {
    match o {
        Operand::Copy(Place::Local(p)) => Some(p),
        Operand::Move(Place::Local(p)) => Some(p),
        Operand::Constant(_) => None,
    }
}

/// The value of an operand: a constant's text, or what `place_map` holds
/// for its local (the local's slot, or the register last assigned to it).
pub open spec fn cg_operand(body: Body, s: CgState, o: Operand) -> Option<Value> {
    match o {
        Operand::Constant(c) => Some(Value::Const(c)),
        _ => {
            let p = operand_local(o)->0;
            if p >= body.local_decls@.len() {
                None
            } else {
                match s.map[p as int] {
                    Some(l) => Some(loc_value(l)),
                    None => None,
                }
            }
        },
    }
}

pub open spec fn spec_operand_type(body: Body, o: Operand) -> Option<Type> {
    match o {
        Operand::Constant(c) => Some(c.ty),
        _ => if operand_local(o)->0 < body.local_decls@.len() {
            Some(body.local_decls@[operand_local(o)->0 as int].ty)
        } else {
            None
        },
    }
}

/// The type of a binary operation: the wider operand type by size, the
/// left one on a tie.
pub open spec fn spec_binary_type(body: Body, a: Operand, b: Operand) -> Option<Type> {
    match (spec_operand_type(body, a), spec_operand_type(body, b)) {
        (Some(ta), Some(tb)) => Some(if ta.spec_size() >= tb.spec_size() { ta } else { tb }),
        _ => None,
    }
}

/// The one instruction that computes an rvalue of type `ty` into register
/// `r`: `add ty c, 0` for a constant, `load ty, ty* p` for a copy, the
/// operation itself otherwise.
pub open spec fn cg_compute(body: Body, s: CgState, rv: Rvalue, ty: Type, r: usize) -> Option<Instr> {
    match rv {
        Rvalue::Use(Operand::Constant(c)) => Some(Instr::Copy { dst: r, ty, value: Value::Const(c) }),
        Rvalue::Use(o) => match cg_operand(body, s, o) {
            Some(v) => Some(Instr::Load { dst: r, ty, ptr: v }),
            None => None,
        },
        Rvalue::BinaryOp(op, a, b) => match (
            cg_operand(body, s, *a),
            cg_operand(body, s, *b),
            spec_binary_type(body, *a, *b),
        ) {
            (Some(va), Some(vb), Some(t)) => Some(Instr::Binary { dst: r, op, ty: t, lhs: va, rhs: vb }),
            _ => None,
        },
        Rvalue::UnaryOp(op, a) => match cg_operand(body, s, *a) {
            Some(va) => Some(Instr::Unary { dst: r, op, ty, arg: va }),
            None => None,
        },
    }
}

/// `place = rvalue` for a user local `d` of type `ty`: a constant is
/// stored directly; a unary operation first loads the slot (the operand
/// then reads that register); anything else is computed into a fresh
/// register and stored. Afterwards `place_map` holds the slot again.
pub open spec fn cg_assign_user(body: Body, s: CgState, d: nat, rv: Rvalue, ty: Type) -> Option<CgState> {
    match rv {
        Rvalue::Use(Operand::Constant(c)) => Some(
            with_loc(cg_emit(s, Instr::Store { ty, value: Value::Const(c), slot: d as usize }), d, Loc::Slot(d as usize)),
        ),
        Rvalue::UnaryOp(op, a) => match s.map[d as int] {
            Some(l) => if s.reg >= usize::MAX {
                None
            } else {
                let r1 = s.reg as usize;
                let s1 = with_loc(cg_emit_def(s, Instr::Load { dst: r1, ty, ptr: loc_value(l) }), d, Loc::Reg(r1));
                if s1.reg >= usize::MAX {
                    None
                } else {
                    let r2 = s1.reg as usize;
                    match cg_operand(body, s1, *a) {
                        Some(va) => Some(
                            with_loc(
                                cg_emit(
                                    cg_emit_def(s1, Instr::Unary { dst: r2, op, ty, arg: va }),
                                    Instr::Store { ty, value: Value::Reg(r2), slot: d as usize },
                                ),
                                d,
                                Loc::Slot(d as usize),
                            ),
                        ),
                        None => None,
                    }
                }
            },
            None => None,
        },
        _ => if s.reg >= usize::MAX {
            None
        } else {
            let r = s.reg as usize;
            match cg_compute(body, s, rv, ty, r) {
                Some(i) => Some(
                    with_loc(
                        cg_emit(cg_emit_def(s, i), Instr::Store { ty, value: Value::Reg(r), slot: d as usize }),
                        d,
                        Loc::Slot(d as usize),
                    ),
                ),
                None => None,
            }
        },
    }
}

/// `place = rvalue`: into a temporary, the value's instruction defines a
/// fresh register, which `place_map` then holds; into a user local, see
/// `cg_assign_user`.
pub open spec fn cg_assign(body: Body, s: CgState, st: Statement) -> Option<CgState> {
    let (d, rv) = match st {
        Statement::Assign(p, r) => (crate::hir::place_index(*p), *r),
    };
    if d >= body.local_decls@.len() {
        None
    } else {
        let ty = body.local_decls@[d as int].ty;
        if body.local_decls@[d as int].local_info is User {
            cg_assign_user(body, s, d, rv, ty)
        } else if s.reg >= usize::MAX {
            None
        } else {
            let r = s.reg as usize;
            match cg_compute(body, s, rv, ty, r) {
                Some(i) => Some(with_loc(cg_emit_def(s, i), d, Loc::Reg(r))),
                None => None,
            }
        }
    }
}

pub open spec fn cg_stmts(body: Body, s: CgState, ss: Seq<Statement>) -> Option<CgState>
    decreases ss.len(),
{
    if ss.len() == 0 {
        Some(s)
    } else {
        match cg_stmts(body, s, ss.drop_last()) {
            Some(s1) => cg_assign(body, s1, ss.last()),
            None => None,
        }
    }
}

/// The end of a block: `Return` loads the return local from where
/// `place_map` finds it and returns it; a jump or a two-way switch
/// branches; anything else fails.
pub open spec fn cg_term(body: Body, s: CgState, t: Option<Terminator>) -> Option<CgState> {
    match t {
        Some(Terminator::Return) => if body.local_decls@.len() == 0 {
            None
        } else {
            match s.map[0] {
                Some(l) => if s.reg >= usize::MAX {
                    None
                } else {
                    let ty = body.local_decls@[0].ty;
                    let r = s.reg as usize;
                    Some(
                        cg_emit(
                            cg_emit_def(s, Instr::Load { dst: r, ty, ptr: loc_value(l) }),
                            Instr::Ret { ty, value: Value::Reg(r) },
                        ),
                    )
                },
                None => None,
            }
        },
        Some(Terminator::Goto { target }) => Some(cg_emit(s, Instr::Jump(target.0))),
        Some(Terminator::SwitchInt { value, targets }) => if targets.blocks@.len() != 2 {
            None
        } else {
            match (cg_operand(body, s, value), spec_operand_type(body, value)) {
                (Some(v), Some(ty)) => Some(
                    cg_emit(
                        s,
                        Instr::CondJump {
                            ty,
                            cond: v,
                            on_true: targets.blocks@[0].0,
                            on_false: targets.blocks@[1].0,
                        },
                    ),
                ),
                _ => None,
            }
        },
        _ => None,
    }
}

/// The label of block `b`, its statements, then its terminator.
pub open spec fn cg_block(body: Body, s: CgState, b: nat) -> Option<CgState> {
    let data = body.basic_blocks@[b as int];
    match cg_stmts(body, cg_emit(s, Instr::Label(b as usize)), data.statements@) {
        Some(s1) => cg_term(body, s1, data.terminator),
        None => None,
    }
}

pub open spec fn successor_indices(t: Option<Terminator>) -> Seq<usize> {
    match t {
        Some(t) => t.spec_successors().map_values(|b: BasicBlock| b.0),
        None => Seq::empty(),
    }
}

/// Breadth-first emission: take the next block from the queue; emit it
/// unless it was emitted before, and queue its successors.
pub open spec fn cg_bfs(body: Body, s: CgState, visited: Seq<bool>, queue: Seq<usize>, head: nat) -> Option<CgState>
    decreases count_false(visited), queue.len() - head,
{
    if head >= queue.len() {
        Some(s)
    } else {
        let b = queue[head as int];
        if b >= body.basic_blocks@.len() || b >= visited.len() {
            None
        } else if visited[b as int] {
            cg_bfs(body, s, visited, queue, head + 1)
        } else {
            let v2 = visited.update(b as int, true);
            if count_false(v2) >= count_false(visited) {
                None
            } else {
                match cg_block(body, s, b as nat) {
                    Some(s1) => cg_bfs(
                        body,
                        s1,
                        v2,
                        queue + successor_indices(body.basic_blocks@[b as int].terminator),
                        head + 1,
                    ),
                    None => None,
                }
            }
        }
    }
}

/// Where a local is found before any code: its slot for a user local,
/// nowhere for a temporary.
pub open spec fn prelude_loc(body: Body, i: int) -> Option<Loc> {
    if is_user(body, i) {
        Some(Loc::Slot(i as usize))
    } else {
        None
    }
}

/// The opening of the listing: one `alloca` per user local, in order, then
/// the jump to the entry block.
pub open spec fn cg_prelude(body: Body) -> CgState {
    let us = user_slots(body, body.local_decls@.len() as int);
    CgState {
        reg: 0,
        map: Seq::new(body.local_decls@.len(), |i: int| prelude_loc(body, i)),
        listing: us.map_values(
            |u: usize| Instr::Alloca { slot: u, ty: body.local_decls@[u as int].ty },
        ).push(Instr::Jump(0)),
    }
}

/// The listing of a body, or `None` where code generation fails.
pub open spec fn lir_of(body: Body) -> Option<Seq<Instr>> {
    match cg_bfs(
        body,
        cg_prelude(body),
        Seq::new(body.basic_blocks@.len(), |i: int| false),
        seq![0usize],
        0,
    ) {
        Some(s) => Some(s.listing),
        None => None,
    }
}

pub open spec fn count_false(s: Seq<bool>) -> nat
    decreases s.len(),
{
    if s.len() == 0 {
        0
    } else {
        count_false(s.drop_last()) + if s.last() {
            0nat
        } else {
            1nat
        }
    }
}

proof fn lemma_count_false_update(s: Seq<bool>, i: int)
    requires
        0 <= i < s.len(),
        !s[i],
    ensures
        count_false(s.update(i, true)) + 1 == count_false(s),
    decreases s.len(),
{
    let t = s.update(i, true);
    if i < s.len() - 1 {
        assert(t.drop_last() =~= s.drop_last().update(i, true));
        lemma_count_false_update(s.drop_last(), i);
    } else {
        assert(t.drop_last() =~= s.drop_last());
    }
}

/// The mutable state of code generation: the next free register, where
/// the value of each local is found, and the listing so far.
struct Emitter {
    reg_id: usize,
    place_map: Vec<Option<Loc>>,
    listing: Vec<Instr>,
}

impl Emitter {
    spec fn state(&self) -> CgState {
        CgState { reg: self.reg_id as nat, map: self.place_map@, listing: self.listing@ }
    }

    spec fn inv(&self, body: Body) -> bool {
        &&& self.place_map@.len() == body.local_decls@.len()
        &&& forall|d: int|
            0 <= d < self.place_map@.len() ==> loc_ok(body, #[trigger] self.place_map@[d])
        &&& forall|j: int|
            0 <= j < self.listing@.len() && (#[trigger] dst_of(self.listing@[j])) is Some
                ==> dst_of(self.listing@[j])->0 < self.reg_id
        &&& is_ssa(self.listing@)
        &&& slots_ok(body, self.listing@)
    }

    /// Appends an instruction that assigns no register.
    fn emit(&mut self, Ghost(body): Ghost<Body>, i: Instr)
        requires
            old(self).inv(body),
            dst_of(i) is None,
            !(i is Alloca),
            refs_ok(body, i),
        ensures
            final(self).inv(body),
            final(self).listing@ == old(self).listing@.push(i),
            final(self).reg_id == old(self).reg_id,
            final(self).place_map == old(self).place_map,
            final(self).state() == cg_emit(old(self).state(), i),
    {
        self.listing.push(i);
        assert(is_ssa(self.listing@)) by {
            assert forall|a: int, b: int|
                0 <= a < b < self.listing@.len() && (#[trigger] dst_of(self.listing@[a])) is Some
                    && (#[trigger] dst_of(self.listing@[b])) is Some implies dst_of(self.listing@[a])
                != dst_of(self.listing@[b]) by {
                assert(b < old(self).listing@.len());
                assert(self.listing@[a] == old(self).listing@[a]);
                assert(self.listing@[b] == old(self).listing@[b]);
            }
        }
        assert forall|j: int| 0 <= j < self.listing@.len() implies refs_ok(
            body,
            #[trigger] self.listing@[j],
        ) by {
            if j < old(self).listing@.len() {
                assert(self.listing@[j] == old(self).listing@[j]);
            }
        }
        assert forall|j: int|
            0 <= j < self.listing@.len() && (#[trigger] dst_of(self.listing@[j])) is Some implies dst_of(
            self.listing@[j],
        )->0 < self.reg_id by {
            assert(self.listing@[j] == old(self).listing@[j]);
        }
    }

    /// The next free register, unless the registers are used up.
    fn next_reg(&self) -> (r: Result<usize, String>)
        ensures
            r matches Ok(n) ==> n == self.reg_id && n < usize::MAX,
            r is Err ==> self.reg_id == usize::MAX,
    {
        if self.reg_id == usize::MAX {
            Err("Out of registers".to_owned())
        } else {
            Ok(self.reg_id)
        }
    }

    /// Appends an instruction that assigns the next free register.
    fn emit_def(&mut self, Ghost(body): Ghost<Body>, i: Instr)
        requires
            old(self).inv(body),
            dst_of(i) == Some(old(self).reg_id),
            old(self).reg_id < usize::MAX,
            !(i is Alloca),
            refs_ok(body, i),
        ensures
            final(self).inv(body),
            final(self).listing@ == old(self).listing@.push(i),
            final(self).reg_id == old(self).reg_id + 1,
            final(self).place_map == old(self).place_map,
            final(self).state() == cg_emit_def(old(self).state(), i),
    {
        self.listing.push(i);
        self.reg_id = self.reg_id + 1;
        assert(is_ssa(self.listing@)) by {
            assert forall|a: int, b: int|
                0 <= a < b < self.listing@.len() && (#[trigger] dst_of(self.listing@[a])) is Some
                    && (#[trigger] dst_of(self.listing@[b])) is Some implies dst_of(self.listing@[a])
                != dst_of(self.listing@[b]) by {
                assert(self.listing@[a] == old(self).listing@[a]);
                if b < old(self).listing@.len() {
                    assert(self.listing@[b] == old(self).listing@[b]);
                }
            }
        }
        assert forall|j: int| 0 <= j < self.listing@.len() implies refs_ok(
            body,
            #[trigger] self.listing@[j],
        ) by {
            if j < old(self).listing@.len() {
                assert(self.listing@[j] == old(self).listing@[j]);
            }
        }
        assert forall|j: int|
            0 <= j < self.listing@.len() && (#[trigger] dst_of(self.listing@[j])) is Some implies dst_of(
            self.listing@[j],
        )->0 < self.reg_id by {
            if j < old(self).listing@.len() {
                assert(self.listing@[j] == old(self).listing@[j]);
            }
        }
    }
}


impl Emitter {
    /// The value of an operand: a constant, or what `place_map` holds for
    /// its local.
    fn operand_value(&self, body: &Body, o: &Operand) -> (r: Result<Value, String>)
        requires
            self.inv(*body),
        ensures
            match r {
                Ok(v) => cg_operand(*body, self.state(), *o) == Some(v) && value_ok(*body, v),
                Err(_) => cg_operand(*body, self.state(), *o) is None,
            },
    {
        match o {
            Operand::Copy(Place::Local(p)) | Operand::Move(Place::Local(p)) => {
                let p = *p;
                if p >= body.local_decls.len() {
                    return Err("Place out of range".to_owned());
                }
                match self.place_map[p] {
                    Some(l) => Ok(value_of(l)),
                    None => Err("Place not found in place_map".to_owned()),
                }
            },
            Operand::Constant(c) => Ok(Value::Const(share(c))),
        }
    }

    /// Records that the value of local `d` is found at `l`.
    fn map_place(&mut self, Ghost(body): Ghost<Body>, d: usize, l: Loc)
        requires
            old(self).inv(body),
            d < body.local_decls@.len(),
            l matches Loc::Slot(x) ==> is_user(body, x as int),
        ensures
            final(self).inv(body),
            final(self).state() == with_loc(old(self).state(), d as nat, l),
    {
        self.place_map.set(d, Some(l));
    }

    /// The instruction that computes `rv` of type `ty` into register `r`.
    fn compute(&self, body: &Body, rv: &Rvalue, ty: Type, r: usize) -> (res: Result<Instr, String>)
        requires
            self.inv(*body),
        ensures
            match res {
                Ok(i) => cg_compute(*body, self.state(), *rv, ty, r) == Some(i) && refs_ok(*body, i)
                    && dst_of(i) == Some(r) && !(i is Alloca),
                Err(_) => cg_compute(*body, self.state(), *rv, ty, r) is None,
            },
    {
        match rv {
            Rvalue::Use(Operand::Constant(c)) => Ok(
                Instr::Copy { dst: r, ty, value: Value::Const(share(c)) },
            ),
            Rvalue::Use(o) => match self.operand_value(body, o) {
                Ok(v) => Ok(Instr::Load { dst: r, ty, ptr: v }),
                Err(m) => Err(m),
            },
            Rvalue::BinaryOp(op, a, b) => {
                let va = match self.operand_value(body, a) {
                    Ok(v) => v,
                    Err(m) => return Err(m),
                };
                let vb = match self.operand_value(body, b) {
                    Ok(v) => v,
                    Err(m) => return Err(m),
                };
                let t = match binary_type(body, a, b) {
                    Ok(t) => t,
                    Err(m) => return Err(m),
                };
                Ok(Instr::Binary { dst: r, op: *op, ty: t, lhs: va, rhs: vb })
            },
            Rvalue::UnaryOp(op, a) => match self.operand_value(body, a) {
                Ok(va) => Ok(Instr::Unary { dst: r, op: *op, ty, arg: va }),
                Err(m) => Err(m),
            },
        }
    }

    /// Lowers `place = rvalue` into the user local `d`.
    fn build_assign_user(&mut self, body: &Body, d: usize, rv: &Rvalue, ty: Type) -> (r: Result<(), String>)
        requires
            old(self).inv(*body),
            is_user(*body, d as int),
        ensures
            final(self).inv(*body),
            r is Ok ==> cg_assign_user(*body, old(self).state(), d as nat, *rv, ty) == Some(final(self).state()),
            r is Err ==> cg_assign_user(*body, old(self).state(), d as nat, *rv, ty) is None,
    {
        match rv {
            Rvalue::Use(Operand::Constant(c)) => {
                self.emit(Ghost(*body), Instr::Store { ty, value: Value::Const(share(c)), slot: d });
            },
            Rvalue::UnaryOp(op, a) => {
                let l = match self.place_map[d] {
                    Some(l) => l,
                    None => return Err("Place not found in place_map".to_owned()),
                };
                let r1 = match self.next_reg() {
                    Ok(r) => r,
                    Err(m) => return Err(m),
                };
                self.emit_def(Ghost(*body), Instr::Load { dst: r1, ty, ptr: value_of(l) });
                self.map_place(Ghost(*body), d, Loc::Reg(r1));
                let r2 = match self.next_reg() {
                    Ok(r) => r,
                    Err(m) => return Err(m),
                };
                let va = match self.operand_value(body, a) {
                    Ok(v) => v,
                    Err(m) => return Err(m),
                };
                self.emit_def(Ghost(*body), Instr::Unary { dst: r2, op: *op, ty, arg: va });
                self.emit(Ghost(*body), Instr::Store { ty, value: Value::Reg(r2), slot: d });
            },
            _ => {
                let r = match self.next_reg() {
                    Ok(r) => r,
                    Err(m) => return Err(m),
                };
                let i = match self.compute(body, rv, ty, r) {
                    Ok(i) => i,
                    Err(m) => return Err(m),
                };
                self.emit_def(Ghost(*body), i);
                self.emit(Ghost(*body), Instr::Store { ty, value: Value::Reg(r), slot: d });
            },
        }
        self.map_place(Ghost(*body), d, Loc::Slot(d));
        Ok(())
    }

    /// Lowers `place = rvalue`.
    fn build_assign(&mut self, body: &Body, st: &Statement) -> (r: Result<(), String>)
        requires
            old(self).inv(*body),
        ensures
            final(self).inv(*body),
            r is Ok ==> cg_assign(*body, old(self).state(), *st) == Some(final(self).state()),
            r is Err ==> cg_assign(*body, old(self).state(), *st) is None,
    {
        let (place, rvalue) = match st {
            Statement::Assign(p, r) => (p, r),
        };
        let d = match **place {
            Place::Local(d) => d,
        };
        if d >= body.local_decls.len() {
            return Err("Place out of range".to_owned());
        }
        let ty = body.local_decls[d].ty;
        match &body.local_decls[d].local_info {
            LocalInfo::User(_) => return self.build_assign_user(body, d, rvalue, ty),
            LocalInfo::Temp => {},
        }
        let r = match self.next_reg() {
            Ok(r) => r,
            Err(m) => return Err(m),
        };
        let i = match self.compute(body, rvalue, ty, r) {
            Ok(i) => i,
            Err(m) => return Err(m),
        };
        self.emit_def(Ghost(*body), i);
        self.map_place(Ghost(*body), d, Loc::Reg(r));
        Ok(())
    }

    /// Lowers a terminator to the branch or return that ends its block.
    fn build_terminator(&mut self, body: &Body, t: &Option<Terminator>) -> (r: Result<(), String>)
        requires
            old(self).inv(*body),
        ensures
            final(self).inv(*body),
            r is Ok ==> cg_term(*body, old(self).state(), *t) == Some(final(self).state()),
            r is Err ==> cg_term(*body, old(self).state(), *t) is None,
    {
        match t {
            Some(Terminator::Return) => {
                if body.local_decls.len() == 0 {
                    return Err("Missing return slot".to_owned());
                }
                let l = match self.place_map[0] {
                    Some(l) => l,
                    None => return Err("Place not found in place_map".to_owned()),
                };
                let ty = body.local_decls[0].ty;
                let r = match self.next_reg() {
                    Ok(r) => r,
                    Err(m) => return Err(m),
                };
                self.emit_def(Ghost(*body), Instr::Load { dst: r, ty, ptr: value_of(l) });
                self.emit(Ghost(*body), Instr::Ret { ty, value: Value::Reg(r) });
                Ok(())
            },
            Some(Terminator::Goto { target }) => {
                self.emit(Ghost(*body), Instr::Jump(target.0));
                Ok(())
            },
            Some(Terminator::SwitchInt { value, targets }) => {
                if targets.blocks.len() != 2 {
                    return Err("Only two-way switches are supported".to_owned());
                }
                let v = match self.operand_value(body, value) {
                    Ok(v) => v,
                    Err(m) => return Err(m),
                };
                let ty = match operand_type(body, value) {
                    Ok(t) => t,
                    Err(m) => return Err(m),
                };
                self.emit(
                    Ghost(*body),
                    Instr::CondJump {
                        ty,
                        cond: v,
                        on_true: targets.blocks[0].0,
                        on_false: targets.blocks[1].0,
                    },
                );
                Ok(())
            },
            Some(Terminator::Call { .. }) => Err("Calls are not supported".to_owned()),
            None => Err("Block without terminator".to_owned()),
        }
    }

    /// Emits the label of block `b`, its statements and its terminator.
    fn build_basic_block(&mut self, body: &Body, b: usize) -> (r: Result<(), String>)
        requires
            old(self).inv(*body),
            b < body.basic_blocks@.len(),
        ensures
            final(self).inv(*body),
            r is Ok ==> cg_block(*body, old(self).state(), b as nat) == Some(final(self).state()),
            r is Err ==> cg_block(*body, old(self).state(), b as nat) is None,
    {
        self.emit(Ghost(*body), Instr::Label(b));
        let ghost s0 = self.state();
        let data = &body.basic_blocks[b];
        let mut i: usize = 0;
        assert(data.statements@.subrange(0, 0) =~= Seq::<Statement>::empty());
        while i < data.statements.len()
            invariant
                self.inv(*body),
                i <= data.statements@.len(),
                cg_stmts(*body, s0, data.statements@.subrange(0, i as int)) == Some(self.state()),
                s0 == cg_emit(old(self).state(), Instr::Label(b)),
                *data == body.basic_blocks@[b as int],
            decreases data.statements@.len() - i,
        {
            assert(data.statements@.subrange(0, i + 1).drop_last() =~= data.statements@.subrange(0, i as int));
            match self.build_assign(body, &data.statements[i]) {
                Ok(()) => {},
                Err(m) => {
                    assert(cg_stmts(*body, s0, data.statements@.subrange(0, i + 1)) is None);
                    assert(cg_stmts(*body, s0, data.statements@) is None) by {
                        lemma_cg_stmts_none(*body, s0, data.statements@, i as int + 1);
                    }
                    return Err(m);
                },
            }
            i = i + 1;
        }
        assert(data.statements@.subrange(0, i as int) =~= data.statements@);
        self.build_terminator(body, &data.terminator)
    }
}

/// Once the statements up to `k` fail, all of them fail.
proof fn lemma_cg_stmts_none(body: Body, s: CgState, ss: Seq<Statement>, k: int)
    requires
        0 <= k <= ss.len(),
        cg_stmts(body, s, ss.subrange(0, k)) is None,
    ensures
        cg_stmts(body, s, ss) is None,
    decreases ss.len() - k,
{
    if k < ss.len() {
        assert(ss.subrange(0, k + 1).drop_last() =~= ss.subrange(0, k));
        lemma_cg_stmts_none(body, s, ss, k + 1);
    } else {
        assert(ss.subrange(0, k) =~= ss);
    }
}

fn value_of(l: Loc) -> (r: Value)
    ensures
        r == loc_value(l),
{
    match l {
        Loc::Reg(r) => Value::Reg(r),
        Loc::Slot(s) => Value::Slot(s),
    }
}

/// The type of an operand.
fn operand_type(body: &Body, o: &Operand) -> (r: Result<Type, String>)
    ensures
        r matches Ok(t) ==> spec_operand_type(*body, *o) == Some(t),
        r is Err ==> spec_operand_type(*body, *o) is None,
{
    match o {
        Operand::Copy(Place::Local(p)) | Operand::Move(Place::Local(p)) => {
            if *p < body.local_decls.len() {
                Ok(body.local_decls[*p].ty)
            } else {
                Err("Place out of range".to_owned())
            }
        },
        Operand::Constant(c) => Ok(c.ty),
    }
}

/// The type of a binary operation: the wider operand type by size, the
/// left one on a tie.
fn binary_type(body: &Body, a: &Operand, b: &Operand) -> (r: Result<Type, String>)
    ensures
        r matches Ok(t) ==> spec_binary_type(*body, *a, *b) == Some(t),
        r is Err ==> spec_binary_type(*body, *a, *b) is None,
{
    let ta = match operand_type(body, a) {
        Ok(t) => t,
        Err(m) => return Err(m),
    };
    let tb = match operand_type(body, b) {
        Ok(t) => t,
        Err(m) => return Err(m),
    };
    if ta.size() >= tb.size() {
        Ok(ta)
    } else {
        Ok(tb)
    }
}

impl Emitter {
    /// Starts the listing with one `alloca` per user local, then the jump
    /// to the entry block.
    fn new(body: &Body) -> (r: Emitter)
        ensures
            r.inv(*body),
            r.state() == cg_prelude(*body),
    {
        let mut listing: Vec<Instr> = Vec::new();
        let mut place_map: Vec<Option<Loc>> = Vec::new();
        let n = body.local_decls.len();
        let mut i: usize = 0;
        while i < n
            invariant
                n == body.local_decls@.len(),
                i <= n,
                place_map@ == Seq::new(i as nat, |j: int| prelude_loc(*body, j)),
                listing@ == user_slots(*body, i as int).map_values(
                    |u: usize| Instr::Alloca { slot: u, ty: body.local_decls@[u as int].ty },
                ),
                forall|j: int|
                    0 <= j < user_slots(*body, i as int).len() ==> is_user(
                        *body,
                        #[trigger] user_slots(*body, i as int)[j] as int,
                    ),
            decreases n - i,
        {
            let ghost us = user_slots(*body, i as int);
            match &body.local_decls[i].local_info {
                LocalInfo::User(_) => {
                    listing.push(Instr::Alloca { slot: i, ty: body.local_decls[i].ty });
                    assert(user_slots(*body, i + 1) == us.push(i));
                    assert(listing@ =~= user_slots(*body, i + 1).map_values(
                        |u: usize| Instr::Alloca { slot: u, ty: body.local_decls@[u as int].ty },
                    ));
                },
                LocalInfo::Temp => {
                    assert(user_slots(*body, i + 1) == us);
                },
            }
            let loc = match &body.local_decls[i].local_info {
                LocalInfo::User(_) => Some(Loc::Slot(i)),
                LocalInfo::Temp => None,
            };
            place_map.push(loc);
            i = i + 1;
            assert(place_map@ =~= Seq::new(i as nat, |j: int| prelude_loc(*body, j)));
        }
        let ghost k = listing@.len();
        listing.push(Instr::Jump(0));
        let e = Emitter { reg_id: 0, place_map, listing };
        assert forall|j: int| 0 <= j < e.listing@.len() implies refs_ok(*body, #[trigger] e.listing@[j]) by {
            if j < k {
                assert(is_user(*body, user_slots(*body, n as int)[j] as int));
            }
        }
        e
    }

    /// Emits the blocks in breadth-first order from block 0, each once.
    fn build_fn_code(&mut self, body: &Body) -> (r: Result<(), String>)
        requires
            old(self).inv(*body),
        ensures
            final(self).inv(*body),
            r is Ok ==> cg_bfs(
                *body,
                old(self).state(),
                Seq::new(body.basic_blocks@.len(), |i: int| false),
                seq![0usize],
                0,
            ) == Some(final(self).state()),
            r is Err ==> cg_bfs(
                *body,
                old(self).state(),
                Seq::new(body.basic_blocks@.len(), |i: int| false),
                seq![0usize],
                0,
            ) is None,
    {
        let ghost s0 = self.state();
        let nblocks = body.basic_blocks.len();
        let mut visited: Vec<bool> = Vec::new();
        let mut unvisited: usize = 0;
        while unvisited < nblocks
            invariant
                unvisited <= nblocks,
                visited@ == Seq::new(unvisited as nat, |i: int| false),
                count_false(visited@) == unvisited,
            decreases nblocks - unvisited,
        {
            let ghost before = visited@;
            visited.push(false);
            assert(visited@.drop_last() =~= before);
            unvisited = unvisited + 1;
            assert(visited@ =~= Seq::new(unvisited as nat, |i: int| false));
        }
        assert(visited@ =~= Seq::new(body.basic_blocks@.len(), |i: int| false));
        let mut queue: Vec<usize> = Vec::new();
        queue.push(0);
        assert(queue@ =~= seq![0usize]);
        let mut head: usize = 0;
        let ghost goal = cg_bfs(*body, s0, visited@, queue@, 0);
        assert(goal == cg_bfs(
            *body,
            old(self).state(),
            Seq::new(body.basic_blocks@.len(), |i: int| false),
            seq![0usize],
            0,
        ));
        while head < queue.len()
            invariant
                self.inv(*body),
                visited@.len() == nblocks,
                nblocks == body.basic_blocks@.len(),
                count_false(visited@) == unvisited,
                head <= queue@.len(),
                cg_bfs(*body, self.state(), visited@, queue@, head as nat) == goal,
                goal == cg_bfs(
                    *body,
                    old(self).state(),
                    Seq::new(body.basic_blocks@.len(), |i: int| false),
                    seq![0usize],
                    0,
                ),
            decreases unvisited, queue@.len() - head,
        {
            let b = queue[head];
            let ghost h0 = head;
            head = head + 1;
            if b >= nblocks {
                assert(cg_bfs(*body, self.state(), visited@, queue@, h0 as nat) is None);
                return Err("Block out of range".to_owned());
            }
            if !visited[b] {
                proof {
                    lemma_count_false_update(visited@, b as int);
                }
                let ghost s_before = self.state();
                let ghost q_before = queue@;
                let ghost old_visited = visited@;
                visited.set(b, true);
                unvisited = unvisited - 1;
                match self.build_basic_block(body, b) {
                    Ok(()) => {},
                    Err(m) => {
                        assert(cg_bfs(*body, s_before, old_visited, q_before, h0 as nat) is None);
                        return Err(m);
                    },
                }
                match &body.basic_blocks[b].terminator {
                    Some(t) => {
                        let succ = t.successors();
                        let mut k: usize = 0;
                        while k < succ.len()
                            invariant
                                head <= queue@.len(),
                                k <= succ@.len(),
                                queue@ == q_before + succ@.subrange(0, k as int).map_values(
                                    |bb: BasicBlock| bb.0,
                                ),
                            decreases succ@.len() - k,
                        {
                            queue.push(succ[k].0);
                            k = k + 1;
                            assert(queue@ =~= q_before + succ@.subrange(0, k as int).map_values(
                                |bb: BasicBlock| bb.0,
                            ));
                        }
                        assert(succ@.subrange(0, k as int) =~= succ@);
                        assert(queue@ =~= q_before + successor_indices(body.basic_blocks@[b as int].terminator));
                    },
                    None => {
                        assert(queue@ =~= q_before + successor_indices(None));
                    },
                }
            }
        }
        Ok(())
    }
}


/// Generates the listing of a body: the `alloca`s of the user locals, the
/// jump to the entry block, then each block reachable from it, in
/// breadth-first order.
///
/// A body that lowering did not produce may make it fail: a block or local
/// out of range, a block without terminator, a temporary read before it is
/// assigned, a call, or a switch that is not two-way.
pub fn lir_listing(body: &Body) -> (r: Result<Vec<Instr>, String>)
    ensures
        match r {
            Ok(l) => lir_of(*body) == Some(l@) && is_ssa(l@) && slots_ok(*body, l@),
            Err(_) => lir_of(*body) is None,
        },
{
    let mut em = Emitter::new(body);
    assert(cg_prelude(*body).map =~= em.state().map);
    match em.build_fn_code(body) {
        Ok(()) => Ok(em.listing),
        Err(m) => Err(m),
    }
}

/// Lowers a body to the text of one function definition.
pub fn lir_build(body: Body) -> (r: Result<String, String>)
    ensures
        match r {
            Ok(text) => lir_of(body) is Some && text@ == render(body, lir_of(body)->0) && is_ssa(
                lir_of(body)->0,
            ) && slots_ok(body, lir_of(body)->0),
            Err(_) => lir_of(body) is None || body.local_decls@.len() == 0,
        },
{
    let mut codegen = Codegen::new(body);
    codegen.build_lir()
}

/// Code generation for one body.
pub struct Codegen {
    body: Body,
}

impl Codegen {
    pub closed spec fn spec_body(&self) -> Body {
        self.body
    }

    pub fn new(body: Body) -> (r: Codegen)
        ensures
            r.spec_body() == body,
    {
        Codegen { body }
    }

    pub fn build_lir(&mut self) -> (r: Result<String, String>)
        ensures
            final(self).spec_body() == old(self).spec_body(),
            match r {
                Ok(text) => {
                    let b = old(self).spec_body();
                    lir_of(b) is Some && text@ == render(b, lir_of(b)->0) && is_ssa(lir_of(b)->0)
                        && slots_ok(b, lir_of(b)->0)
                },
                Err(_) => lir_of(old(self).spec_body()) is None || old(
                    self,
                ).spec_body().local_decls@.len() == 0,
            },
    {
        let listing = match lir_listing(&self.body) {
            Ok(l) => l,
            Err(m) => return Err(m),
        };
        if self.body.local_decls.len() == 0 {
            return Err("Missing return slot".to_owned());
        }
        let text = render_lir(&self.body, &listing);
        Ok(text)
    }
}


/// In a listing where no register is assigned twice, no register name
/// (`%N`) is the target of two instructions.
pub proof fn lemma_register_names_unique(l: Seq<Instr>, a: int, b: int)
    requires
        is_ssa(l),
        0 <= a < b < l.len(),
        dst_of(l[a]) is Some,
        dst_of(l[b]) is Some,
    ensures
        reg_text(dst_of(l[a])->0 as nat) != reg_text(dst_of(l[b])->0 as nat),
{
    let x = dst_of(l[a])->0 as nat;
    let y = dst_of(l[b])->0 as nat;
    if reg_text(x) == reg_text(y) {
        assert(reg_text(x).drop_first() =~= decimal(x));
        assert(reg_text(y).drop_first() =~= decimal(y));
        lemma_decimal_injective(x, y);
    }
}

proof fn lemma_user_slots(body: Body, n: int)
    requires
        n <= body.local_decls@.len(),
    ensures
        forall|i: int, j: int|
            0 <= i < j < user_slots(body, n).len() ==> user_slots(body, n)[i] < user_slots(
                body,
                n,
            )[j],
        forall|j: int|
            0 <= j < user_slots(body, n).len() ==> is_user(body, user_slots(body, n)[j] as int)
                && (user_slots(body, n)[j] as int) < n,
        forall|k: int|
            0 <= k < n && k <= usize::MAX && is_user(body, k) ==> exists|j: int|
                0 <= j < user_slots(body, n).len() && user_slots(body, n)[j] == k,
    decreases n,
{
    assert(body.local_decls.len() == body.local_decls@.len());
    if n > 0 {
        lemma_user_slots(body, n - 1);
        let prev = user_slots(body, n - 1);
        if is_user(body, n - 1) {
            assert(user_slots(body, n) == prev.push((n - 1) as usize));
            assert forall|k: int| 0 <= k < n && k <= usize::MAX && is_user(body, k) implies exists|j: int|
                0 <= j < user_slots(body, n).len() && user_slots(body, n)[j] == k by {
                if k == n - 1 {
                    assert(user_slots(body, n)[prev.len() as int] == k);
                } else {
                    let j = choose|j: int| 0 <= j < prev.len() && prev[j] == k;
                    assert(user_slots(body, n)[j] == k);
                }
            }
        } else {
            assert(user_slots(body, n) == prev);
        }
    }
}

/// Every user local has exactly one `alloca` in a listing with
/// `slots_ok`, and only user locals have one.
pub proof fn lemma_one_alloca_per_user_local(body: Body, l: Seq<Instr>, u: usize)
    requires
        slots_ok(body, l),
    ensures
        is_user(body, u as int) ==> exists|j: int|
            0 <= j < l.len() && l[j] == (Instr::Alloca { slot: u, ty: body.local_decls@[u as int].ty }),
        forall|i: int, j: int|
            0 <= i < l.len() && 0 <= j < l.len() && l[i] is Alloca && l[j] is Alloca && slot_of(l[i])
                == Some(u) && slot_of(l[j]) == Some(u) ==> i == j,
        forall|j: int| 0 <= j < l.len() && l[j] is Alloca && slot_of(l[j]) == Some(u) ==> is_user(body, u as int),
{
    let n = body.local_decls@.len() as int;
    let us = user_slots(body, n);
    lemma_user_slots(body, n);
    if is_user(body, u as int) {
        let j = choose|j: int| 0 <= j < us.len() && us[j] == u as int;
        assert(l[j] == (Instr::Alloca { slot: us[j], ty: body.local_decls@[us[j] as int].ty }));
    }
    assert forall|i: int, j: int|
        0 <= i < l.len() && 0 <= j < l.len() && l[i] is Alloca && l[j] is Alloca && slot_of(l[i])
            == Some(u) && slot_of(l[j]) == Some(u) implies i == j by {
        assert(i < us.len());
        assert(j < us.len());
        assert(l[i] == (Instr::Alloca { slot: us[i], ty: body.local_decls@[us[i] as int].ty }));
        assert(l[j] == (Instr::Alloca { slot: us[j], ty: body.local_decls@[us[j] as int].ty }));
        if i < j {
            assert(us[i] < us[j]);
        } else if j < i {
            assert(us[j] < us[i]);
        }
    }
    assert forall|j: int| 0 <= j < l.len() && l[j] is Alloca && slot_of(l[j]) == Some(u) implies is_user(body, u as int) by {
        assert(slot_of(l[j]) is Some);
    }
}

} // verus!
