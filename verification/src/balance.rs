//! Ownership of temporaries: every register that lowering an expression
//! allocates is used up exactly once, or handed to the caller.
//!
//! A register is used up by a drop instruction, or by being passed to a call
//! as an argument. The balance is kept over all instructions that the
//! builder holds: those of the closed blocks and those of the block under
//! construction.
use crate::cfg::{
    ops_within, values_within, BlockEndView, BlockId, BlockView, InstructionView, Reg,
    UnaryOpView, ValueView,
};
use crate::model::{as_values, BuilderView};
use crate::operand::{LValueView, RValueView};
use crate::position::{Span, Spanned};
use crate::select::{binary_opcode, unary_opcode};
use crate::typed::{BinaryOp, Expr, Statement, TypedExpr, UnaryOp};
use vstd::prelude::*;

verus! {

/// How often `values` holds the register `r`.
pub open spec fn occurrences(values: Seq<ValueView>, r: Reg) -> nat
    decreases values.len(),
{
    if values.len() == 0 {
        0
    } else {
        occurrences(values.drop_last(), r) + if values.last() == ValueView::Reg(r) {
            1nat
        } else {
            0nat
        }
    }
}

/// How often the instruction uses up the register `r`: by dropping it, or by
/// passing it to a call.
pub open spec fn used_up_by(op: InstructionView, r: Reg) -> nat {
    match op {
        InstructionView::Drop(dropped) => if dropped == r {
            1
        } else {
            0
        },
        InstructionView::Call(_, _, _, args) => occurrences(args, r),
        InstructionView::VirtualCall(_, _, args) => occurrences(args, r),
        _ => 0,
    }
}

/// How often the instructions use up the register `r`.
pub open spec fn used_up_in(ops: Seq<Spanned<InstructionView>>, r: Reg) -> nat
    decreases ops.len(),
{
    if ops.len() == 0 {
        0
    } else {
        used_up_in(ops.drop_last(), r) + used_up_by(ops.last().value, r)
    }
}

/// How often the closed blocks among `blocks` use up the register `r`.
pub open spec fn used_up_in_blocks(blocks: Seq<Option<BlockView>>, r: Reg) -> nat
    decreases blocks.len(),
{
    if blocks.len() == 0 {
        0
    } else {
        used_up_in_blocks(blocks.drop_last(), r) + match blocks.last() {
            Some(block) => used_up_in(block.ops, r),
            None => 0,
        }
    }
}

/// How often everything emitted so far uses up the register `r`.
pub open spec fn used_up(st: BuilderView, r: Reg) -> nat {
    used_up_in_blocks(st.blocks, r) + used_up_in(st.ops, r)
}

/// 1 if the value owns the register `r`, else 0.
pub open spec fn held(value: RValueView, r: Reg) -> nat {
    if value.owned() == Some(r) {
        1
    } else {
        0
    }
}

/// 1 if the place holds a pointer value that owns the register `r`, else 0.
pub open spec fn held_in_place(place: LValueView, r: Reg) -> nat {
    match place {
        LValueView::Deref(ptr, _) => held(ptr, r),
        _ => 0,
    }
}

/// 1 if the register `r` was allocated between the states `before` and `after`, else 0.
pub open spec fn born(before: BuilderView, after: BuilderView, r: Reg) -> nat {
    if before.registers.len() <= r.0 < after.registers.len() {
        1
    } else {
        0
    }
}

/// A block is under construction, and it is allocated and not closed.
pub open spec fn building(st: BuilderView) -> bool {
    st.current matches Some(id) && id.0 < st.blocks.len() && st.blocks[id.0 as int] is None
}

/// Every variable in scope has a register below `lo`.
pub open spec fn vars_below(st: BuilderView, lo: nat) -> bool {
    forall|k: u32| st.vars.contains_key(k) ==> (#[trigger] st.vars[k]).0 < lo
}

/// Appending an instruction adds what it uses up.
pub proof fn lemma_used_up_emit(st: BuilderView, op: InstructionView, span: Span, r: Reg)
    ensures
        used_up(st.emit(op, span), r) == used_up(st, r) + used_up_by(op, r),
{
    let ops = st.ops.push(Spanned { value: op, span });
    assert(ops.drop_last() =~= st.ops);
}

/// Dropping a value uses up the register it owns.
pub proof fn lemma_used_up_drop(st: BuilderView, value: RValueView, span: Span, r: Reg)
    ensures
        used_up(st.drop_value(value, span), r) == used_up(st, r) + held(value, r),
{
    match value.owned() {
        Some(x) => lemma_used_up_emit(st, InstructionView::Drop(x), span, r),
        None => {},
    }
}

/// Allocating a block uses up nothing.
pub proof fn lemma_used_up_new_block(st: BuilderView, r: Reg)
    ensures
        used_up(st.new_block().0, r) == used_up(st, r),
{
    assert(st.blocks.push(None).drop_last() =~= st.blocks);
}

/// Closing an open slot of the block table adds what the block uses up.
pub proof fn lemma_used_up_close(blocks: Seq<Option<BlockView>>, i: int, block: BlockView, r: Reg)
    requires
        0 <= i < blocks.len(),
        blocks[i] is None,
    ensures
        used_up_in_blocks(blocks.update(i, Some(block)), r) == used_up_in_blocks(blocks, r)
            + used_up_in(block.ops, r),
    decreases blocks.len(),
{
    let closed = blocks.update(i, Some(block));
    if i == blocks.len() - 1 {
        assert(closed.drop_last() =~= blocks.drop_last());
    } else {
        lemma_used_up_close(blocks.drop_last(), i, block, r);
        assert(closed.drop_last() =~= blocks.drop_last().update(i, Some(block)));
    }
}

/// Closing the block under construction and opening another moves
/// instructions about, and uses up nothing.
pub proof fn lemma_used_up_switch(
    st: BuilderView,
    end: BlockEndView,
    weak_link: Option<BlockId>,
    next: BlockId,
    r: Reg,
)
    requires
        building(st),
    ensures
        used_up(st.end_block(end, weak_link).start_block(next), r) == used_up(st, r),
        used_up(st.end_block(end, weak_link), r) == used_up(st, r),
{
    let id = st.current->0;
    lemma_used_up_close(st.blocks, id.0 as int, BlockView { ops: st.ops, end, weak_link }, r);
}

/// Storing to a place uses up the pointer temporary of the place, if it has one.
pub proof fn lemma_used_up_store(
    st: BuilderView,
    target: LValueView,
    span: Span,
    value: ValueView,
    r: Reg,
)
    ensures
        used_up(st.emit_store(target, span, value), r) == used_up(st, r) + held_in_place(target, r),
{
    match target {
        LValueView::Deref(ptr, path) => {
            let op = InstructionView::DerefStore(ptr.as_value(), path, value);
            lemma_used_up_emit(st, op, span, r);
            lemma_used_up_drop(st.emit(op, span), ptr, span, r);
        },
        LValueView::Reg(reg, path) => {
            lemma_used_up_emit(st, InstructionView::FieldStore(reg, path, value), span, r);
        },
        _ => {},
    }
}

/// Taking the address of a place uses up the pointer temporary of the
/// place, if it has one.
pub proof fn lemma_used_up_take_address(
    st: BuilderView,
    target: Reg,
    span: Span,
    place: LValueView,
    r: Reg,
)
    ensures
        used_up(st.emit_take_address(target, span, place), r) == used_up(st, r) + held_in_place(
            place,
            r,
        ),
{
    match place {
        LValueView::Deref(ptr, path) => {
            let op = InstructionView::UnaryOp(
                target,
                UnaryOpView::OffsetAddress(path),
                ptr.as_value(),
            );
            lemma_used_up_emit(st, op, span, r);
            lemma_used_up_drop(st.emit(op, span), ptr, span, r);
        },
        LValueView::Reg(reg, path) => {
            lemma_used_up_emit(st, InstructionView::TakeAddress(target, reg, path), span, r);
        },
        _ => {},
    }
}

/// One more argument adds its own occurrence.
pub proof fn lemma_occurrences_push(values: Seq<RValueView>, value: RValueView, lo: nat, r: Reg)
    requires
        lo <= r.0,
        value matches RValueView::Var(x) ==> x.0 < lo,
    ensures
        occurrences(as_values(values.push(value)), r) == occurrences(as_values(values), r) + held(
            value,
            r,
        ),
{
    let all = as_values(values.push(value));
    assert(all.drop_last() =~= as_values(values));
    assert(all.last() == value.as_value());
}

/// Nothing allocated in `st` is missing in `next`.
pub open spec fn grown(st: BuilderView, next: BuilderView) -> bool {
    &&& st.registers.len() <= next.registers.len()
    &&& st.blocks.len() <= next.blocks.len()
}

/// Both tables of the state fit the machine, so that every register and
/// block has the number of its place in its table.
pub open spec fn fits(st: BuilderView) -> bool {
    &&& st.registers.len() <= usize::MAX
    &&& st.blocks.len() <= usize::MAX
}

/// Lowering an expression for its value takes no register and no block back.
pub proof fn lemma_expr_grows(st: BuilderView, e: TypedExpr)
    ensures
        grown(st, st.lower_expr(e).0),
    decreases e, 1nat,
{
    match *e.expr {
        Expr::Binary(lhs, op, rhs) => match op.value {
            BinaryOp::Assign => {
                lemma_place_grows(st, lhs);
                lemma_expr_grows(st.lower_place(lhs).0, rhs);
            },
            BinaryOp::And | BinaryOp::Or => {
                lemma_short_circuit_grows(st, e);
            },
            _ => {
                lemma_expr_grows(st, lhs);
                lemma_expr_grows(st.lower_expr(lhs).0, rhs);
            },
        },
        Expr::Unary(op, operand) => match op.value {
            UnaryOp::AddressOf => {
                lemma_place_grows(st, operand);
            },
            _ => {
                lemma_expr_grows(st, operand);
            },
        },
        Expr::Call(callee, params) => {
            lemma_expr_grows(st, callee);
            lemma_args_grow(st.lower_expr(callee).0, params@, params@.len());
        },
        Expr::Field(base, index) => {
            lemma_expr_grows(st, base);
        },
        Expr::Name(name, type_args) => {},
        Expr::Literal(literal) => {},
        Expr::Error => {},
    }
}

/// Lowering `and` and `or` takes no register and no block back.
pub proof fn lemma_short_circuit_grows(st: BuilderView, e: TypedExpr)
    ensures
        grown(st, st.lower_short_circuit(e).0),
    decreases e, 0nat,
{
    match *e.expr {
        Expr::Binary(lhs, op, rhs) => {
            if op.value == BinaryOp::And || op.value == BinaryOp::Or {
                lemma_expr_grows(st, lhs);
                let (s1, left) = st.lower_expr(lhs);
                let (s2, result) = s1.new_register(e.typ);
                let s3 = s2.emit(InstructionView::Assign(result, left.as_value()), e.span).drop_value(
                    left,
                    e.span,
                );
                let (s4, more) = s3.new_block();
                let (s5, after) = s4.new_block();
                let branch = if op.value == BinaryOp::And {
                    BlockEndView::Branch(ValueView::Reg(result), more, after)
                } else {
                    BlockEndView::Branch(ValueView::Reg(result), after, more)
                };
                let s6 = s5.end_block(branch, Some(after)).start_block(more);
                assert(grown(st, s6));
                lemma_expr_grows(s6, rhs);
            }
        },
        _ => {},
    }
}

/// Lowering arguments takes no register and no block back.
pub proof fn lemma_args_grow(st: BuilderView, args: Seq<TypedExpr>, n: nat)
    ensures
        grown(st, st.lower_args(args, n).0),
    decreases args, n,
{
    if 0 < n <= args.len() {
        lemma_args_grow(st, args, (n - 1) as nat);
        lemma_expr_grows(st.lower_args(args, (n - 1) as nat).0, args[n - 1]);
    }
}

/// Lowering an expression for its place takes no register and no block back.
pub proof fn lemma_place_grows(st: BuilderView, e: TypedExpr)
    ensures
        grown(st, st.lower_place(e).0),
    decreases e, 1nat,
{
    match *e.expr {
        Expr::Field(base, index) => {
            lemma_place_grows(st, base);
        },
        Expr::Unary(op, operand) => {
            if op.value == UnaryOp::Deref {
                lemma_expr_grows(st, operand);
            }
        },
        _ => {},
    }
}

/// The outcome of a lowering from `st` to `next` that hands `kept` owners
/// of the register `r` to its caller.
///
/// A block is under construction; nothing allocated was lost; loops,
/// waiting blocks and variables are the same. And `r` is in balance, if it
/// is no variable's register (those lie below `lo`): if it was allocated on
/// the way, it has been used up once or is handed on; if not, nothing has
/// used it up.
pub open spec fn settled(st: BuilderView, next: BuilderView, kept: nat, lo: nat, r: Reg) -> bool {
    &&& building(next)
    &&& st.carries_on(next)
    &&& next.vars == st.vars
    &&& lo <= r.0 ==> used_up(next, r) + kept == used_up(st, r) + born(st, next, r)
}

/// What a lowering from `st` may return: a variable's register, which lies
/// below `lo`, or a temporary of its own, allocated after `st`.
pub open spec fn hands_on(st: BuilderView, value: RValueView, lo: nat) -> bool {
    &&& value matches RValueView::Var(x) ==> x.0 < lo
    &&& value.owned() matches Some(x) ==> st.registers.len() <= x.0
}

/// What the lemmas below ask of the state that a lowering starts from.
pub open spec fn ready(st: BuilderView, lo: nat) -> bool {
    &&& building(st)
    &&& vars_below(st, lo)
    &&& lo <= st.registers.len()
}

/// Lowering an expression for its value keeps every register in balance:
/// the value returned is the only temporary left to the caller.
pub proof fn lemma_expr_balance(st: BuilderView, e: TypedExpr, lo: nat, r: Reg)
    requires
        ready(st, lo),
        fits(st.lower_expr(e).0),
    ensures
        settled(st, st.lower_expr(e).0, held(st.lower_expr(e).1, r), lo, r),
        hands_on(st, st.lower_expr(e).1, lo),
    decreases e, 1nat,
{
    match *e.expr {
        Expr::Binary(lhs, op, rhs) => match op.value {
            BinaryOp::Assign => {
                lemma_assign_balance(st, e, lo, r);
            },
            BinaryOp::And | BinaryOp::Or => {
                lemma_short_circuit_balance(st, e, lo, r);
            },
            _ => {
                lemma_binary_balance(st, e, lo, r);
            },
        },
        Expr::Unary(op, operand) => match op.value {
            UnaryOp::AddressOf => {
                lemma_address_of_balance(st, e, lo, r);
            },
            _ => {
                lemma_unary_balance(st, e, lo, r);
            },
        },
        Expr::Call(callee, params) => {
            lemma_call_balance(st, e, lo, r);
        },
        Expr::Field(base, index) => {
            lemma_field_balance(st, e, lo, r);
        },
        Expr::Name(name, type_args) => {},
        Expr::Literal(literal) => {},
        Expr::Error => {},
    }
}

/// The balance over an assignment.
pub proof fn lemma_assign_balance(st: BuilderView, e: TypedExpr, lo: nat, r: Reg)
    requires
        ready(st, lo),
        fits(st.lower_expr(e).0),
        (*e.expr) matches Expr::Binary(_, op, _) && op.value == BinaryOp::Assign,
    ensures
        settled(st, st.lower_expr(e).0, held(st.lower_expr(e).1, r), lo, r),
        hands_on(st, st.lower_expr(e).1, lo),
    decreases e, 0nat,
{
    match *e.expr {
        Expr::Binary(lhs, op, rhs) => {
            let (s1, target) = st.lower_place(lhs);
            let (s2, value) = s1.lower_expr(rhs);
            lemma_expr_grows(s1, rhs);
            lemma_place_balance(st, lhs, lo, r);
            lemma_expr_balance(s1, rhs, lo, r);
            lemma_used_up_store(s2, target, lhs.span, value.as_value(), r);
        },
        _ => {},
    }
}

/// The balance over a binary operator that evaluates both operands.
pub proof fn lemma_binary_balance(st: BuilderView, e: TypedExpr, lo: nat, r: Reg)
    requires
        ready(st, lo),
        fits(st.lower_expr(e).0),
        (*e.expr) matches Expr::Binary(_, op, _) && op.value != BinaryOp::Assign && op.value
            != BinaryOp::And && op.value != BinaryOp::Or,
    ensures
        settled(st, st.lower_expr(e).0, held(st.lower_expr(e).1, r), lo, r),
        hands_on(st, st.lower_expr(e).1, lo),
    decreases e, 0nat,
{
    match *e.expr {
        Expr::Binary(lhs, op, rhs) => {
            let (s1, left) = st.lower_expr(lhs);
            let (s2, right) = s1.lower_expr(rhs);
            lemma_expr_grows(s1, rhs);
            lemma_expr_balance(st, lhs, lo, r);
            lemma_expr_balance(s1, rhs, lo, r);
            match binary_opcode(op.value, lhs.typ) {
                Some(opcode) => {
                    let (s3, result) = s2.new_register(e.typ);
                    let operation = InstructionView::BinaryOp(
                        result,
                        opcode,
                        left.as_value(),
                        right.as_value(),
                    );
                    let s4 = s3.emit(operation, e.span);
                    let s5 = s4.drop_value(left, e.span);
                    lemma_used_up_emit(s3, operation, e.span, r);
                    lemma_used_up_drop(s4, left, e.span, r);
                    lemma_used_up_drop(s5, right, e.span, r);
                },
                None => {
                    let s3 = s2.drop_value(left, e.span);
                    lemma_used_up_drop(s2, left, e.span, r);
                    lemma_used_up_drop(s3, right, e.span, r);
                },
            }
        },
        _ => {},
    }
}

/// The balance over address-of.
pub proof fn lemma_address_of_balance(st: BuilderView, e: TypedExpr, lo: nat, r: Reg)
    requires
        ready(st, lo),
        fits(st.lower_expr(e).0),
        (*e.expr) matches Expr::Unary(op, _) && op.value == UnaryOp::AddressOf,
    ensures
        settled(st, st.lower_expr(e).0, held(st.lower_expr(e).1, r), lo, r),
        hands_on(st, st.lower_expr(e).1, lo),
    decreases e, 0nat,
{
    match *e.expr {
        Expr::Unary(op, operand) => {
            let (s1, place) = st.lower_place(operand);
            let (s2, result) = s1.new_register(e.typ);
            lemma_place_balance(st, operand, lo, r);
            lemma_used_up_take_address(s2, result, operand.span, place, r);
        },
        _ => {},
    }
}

/// The balance over a unary operator that evaluates its operand.
pub proof fn lemma_unary_balance(st: BuilderView, e: TypedExpr, lo: nat, r: Reg)
    requires
        ready(st, lo),
        fits(st.lower_expr(e).0),
        (*e.expr) matches Expr::Unary(op, _) && op.value != UnaryOp::AddressOf,
    ensures
        settled(st, st.lower_expr(e).0, held(st.lower_expr(e).1, r), lo, r),
        hands_on(st, st.lower_expr(e).1, lo),
    decreases e, 0nat,
{
    match *e.expr {
        Expr::Unary(op, operand) => {
            let (s1, value) = st.lower_expr(operand);
            lemma_expr_balance(st, operand, lo, r);
            match unary_opcode(op.value, operand.typ) {
                Some(opcode) => {
                    let (s2, result) = s1.new_register(e.typ);
                    let operation = InstructionView::UnaryOp(result, opcode, value.as_value());
                    lemma_used_up_emit(s2, operation, e.span, r);
                    lemma_used_up_drop(s2.emit(operation, e.span), value, e.span, r);
                },
                None => {
                    lemma_used_up_drop(s1, value, e.span, r);
                },
            }
        },
        _ => {},
    }
}

/// The balance over a call: the arguments are used up by the call, the
/// callee's temporary by the drop after it.
pub proof fn lemma_call_balance(st: BuilderView, e: TypedExpr, lo: nat, r: Reg)
    requires
        ready(st, lo),
        fits(st.lower_expr(e).0),
        *e.expr is Call,
    ensures
        settled(st, st.lower_expr(e).0, held(st.lower_expr(e).1, r), lo, r),
        hands_on(st, st.lower_expr(e).1, lo),
    decreases e, 0nat,
{
    match *e.expr {
        Expr::Call(callee, params) => {
            let (s1, f) = st.lower_expr(callee);
            let (s2, args) = s1.lower_args(params@, params@.len());
            lemma_args_grow(s1, params@, params@.len());
            lemma_expr_balance(st, callee, lo, r);
            lemma_args_balance(s1, params@, params@.len(), lo, r);
            let (s3, target) = s2.new_register(e.typ);
            let call = match f {
                RValueView::Temp(ValueView::Symbol(name, types)) => InstructionView::Call(
                    target,
                    name,
                    types,
                    as_values(args),
                ),
                _ => InstructionView::VirtualCall(target, f.as_value(), as_values(args)),
            };
            lemma_used_up_emit(s3, call, e.span, r);
            lemma_used_up_drop(s3.emit(call, e.span), f, callee.span, r);
        },
        _ => {},
    }
}

/// The balance over a field access.
pub proof fn lemma_field_balance(st: BuilderView, e: TypedExpr, lo: nat, r: Reg)
    requires
        ready(st, lo),
        fits(st.lower_expr(e).0),
        *e.expr is Field,
    ensures
        settled(st, st.lower_expr(e).0, held(st.lower_expr(e).1, r), lo, r),
        hands_on(st, st.lower_expr(e).1, lo),
    decreases e, 0nat,
{
    match *e.expr {
        Expr::Field(base, index) => {
            let (s1, value) = st.lower_expr(base);
            lemma_expr_balance(st, base, lo, r);
            let (s2, target) = s1.new_register(e.typ);
            let load = InstructionView::UnaryOp(
                target,
                UnaryOpView::FieldLoad(seq![index.value]),
                value.as_value(),
            );
            lemma_used_up_emit(s2, load, e.span, r);
            lemma_used_up_drop(s2.emit(load, e.span), value, e.span, r);
        },
        _ => {},
    }
}

/// The balance over `and` and `or`, counted over both blocks that they
/// emit into.
pub proof fn lemma_short_circuit_balance(st: BuilderView, e: TypedExpr, lo: nat, r: Reg)
    requires
        ready(st, lo),
        fits(st.lower_short_circuit(e).0),
        (*e.expr) matches Expr::Binary(_, op, _) && (op.value == BinaryOp::And || op.value
            == BinaryOp::Or),
    ensures
        settled(st, st.lower_short_circuit(e).0, held(st.lower_short_circuit(e).1, r), lo, r),
        hands_on(st, st.lower_short_circuit(e).1, lo),
    decreases e, 0nat,
{
    match *e.expr {
        Expr::Binary(lhs, op, rhs) => {
            let (s1, left) = st.lower_expr(lhs);
            let (s2, result) = s1.new_register(e.typ);
            let first = InstructionView::Assign(result, left.as_value());
            let s3a = s2.emit(first, e.span);
            let s3 = s3a.drop_value(left, e.span);
            let (s4, more) = s3.new_block();
            let (s5, after) = s4.new_block();
            let branch = if op.value == BinaryOp::And {
                BlockEndView::Branch(ValueView::Reg(result), more, after)
            } else {
                BlockEndView::Branch(ValueView::Reg(result), after, more)
            };
            let s6 = s5.end_block(branch, Some(after)).start_block(more);
            let (s7, right) = s6.lower_expr(rhs);
            let second = InstructionView::Assign(result, right.as_value());
            let s7a = s7.emit(second, e.span);
            let s7b = s7a.drop_value(right, e.span);
            let s8 = s7b.end_block(BlockEndView::Jump(after), Some(after)).start_block(after);
            assert(st.lower_short_circuit(e).0 == s8);
            lemma_expr_grows(s6, rhs);
            assert(fits(s7));
            assert(fits(s1));
            lemma_expr_balance(st, lhs, lo, r);
            lemma_used_up_emit(s2, first, e.span, r);
            lemma_used_up_drop(s3a, left, e.span, r);
            lemma_used_up_new_block(s3, r);
            lemma_used_up_new_block(s4, r);
            lemma_used_up_switch(s5, branch, Some(after), more, r);
            assert(s6.unopened() =~= st.unopened().insert(after.0 as int));
            assert(building(s6));
            lemma_expr_balance(s6, rhs, lo, r);
            lemma_used_up_emit(s7, second, e.span, r);
            lemma_used_up_drop(s7a, right, e.span, r);
            lemma_used_up_switch(s7b, BlockEndView::Jump(after), Some(after), after, r);
            let s7c = s7b.end_block(BlockEndView::Jump(after), Some(after));
            assert(s7.unopened().contains(after.0 as int));
            assert(s7c.unopened() =~= s7.unopened());
            assert(s8.unopened() =~= s7c.unopened().remove(after.0 as int));
            assert(s8.unopened() =~= st.unopened());
        },
        _ => {},
    }
}

/// Lowering arguments keeps every register in balance: the values returned
/// are the only temporaries left to the caller.
pub proof fn lemma_args_balance(st: BuilderView, args: Seq<TypedExpr>, n: nat, lo: nat, r: Reg)
    requires
        ready(st, lo),
        fits(st.lower_args(args, n).0),
    ensures
        settled(
            st,
            st.lower_args(args, n).0,
            occurrences(as_values(st.lower_args(args, n).1), r),
            lo,
            r,
        ),
    decreases args, n,
{
    if 0 < n <= args.len() {
        let (s1, values) = st.lower_args(args, (n - 1) as nat);
        let (s2, value) = s1.lower_expr(args[n - 1]);
        lemma_expr_grows(s1, args[n - 1]);
        lemma_args_balance(st, args, (n - 1) as nat, lo, r);
        lemma_expr_balance(s1, args[n - 1], lo, r);
        if lo <= r.0 {
            lemma_occurrences_push(values, value, lo, r);
        }
    } else {
        assert(as_values(Seq::<RValueView>::empty()) =~= Seq::<ValueView>::empty());
    }
}

/// Lowering an expression for its place keeps every register in balance:
/// the pointer value of the place, if it has one, is the only temporary left
/// to the caller.
pub proof fn lemma_place_balance(st: BuilderView, e: TypedExpr, lo: nat, r: Reg)
    requires
        ready(st, lo),
        fits(st.lower_place(e).0),
    ensures
        settled(st, st.lower_place(e).0, held_in_place(st.lower_place(e).1, r), lo, r),
    decreases e, 1nat,
{
    match *e.expr {
        Expr::Field(base, index) => {
            lemma_place_balance(st, base, lo, r);
        },
        Expr::Unary(op, operand) => {
            if op.value == UnaryOp::Deref {
                lemma_expr_balance(st, operand, lo, r);
            }
        },
        _ => {},
    }
}

/// Values that name only allocated registers do not hold one that is not
/// allocated.
pub proof fn lemma_no_occurrence_beyond(values: Seq<ValueView>, registers: nat, r: Reg)
    requires
        values_within(values, registers),
        registers <= r.0,
    ensures
        occurrences(values, r) == 0,
    decreases values.len(),
{
    if values.len() > 0 {
        assert(values.last().within(registers));
        assert forall|i: int| 0 <= i < values.drop_last().len() implies (
        #[trigger] values.drop_last()[i]).within(registers) by {
            assert(values[i].within(registers));
        }
        lemma_no_occurrence_beyond(values.drop_last(), registers, r);
    }
}

/// Instructions that name only allocated registers use up none that is
/// not allocated.
pub proof fn lemma_unused_beyond(ops: Seq<Spanned<InstructionView>>, registers: nat, r: Reg)
    requires
        ops_within(ops, registers),
        registers <= r.0,
    ensures
        used_up_in(ops, r) == 0,
    decreases ops.len(),
{
    if ops.len() > 0 {
        assert(ops.last().value.within(registers));
        match ops.last().value {
            InstructionView::Call(_, _, _, args) => lemma_no_occurrence_beyond(args, registers, r),
            InstructionView::VirtualCall(_, _, args) => lemma_no_occurrence_beyond(
                args,
                registers,
                r,
            ),
            _ => {},
        }
        assert forall|i: int| 0 <= i < ops.drop_last().len() implies (#[trigger] ops.drop_last()[i]).value.within(
            registers,
        ) by {
            assert(ops[i].value.within(registers));
        }
        lemma_unused_beyond(ops.drop_last(), registers, r);
    }
}

/// Closed blocks that name only allocated registers use up none that is
/// not allocated.
pub proof fn lemma_blocks_unused_beyond(
    blocks: Seq<Option<BlockView>>,
    registers: nat,
    r: Reg,
)
    requires
        forall|i: int|
            0 <= i < blocks.len() ==> ((#[trigger] blocks[i]) matches Some(b) ==> ops_within(
                b.ops,
                registers,
            )),
        registers <= r.0,
    ensures
        used_up_in_blocks(blocks, r) == 0,
    decreases blocks.len(),
{
    if blocks.len() > 0 {
        match blocks.last() {
            Some(block) => lemma_unused_beyond(block.ops, registers, r),
            None => {},
        }
        assert forall|i: int| 0 <= i < blocks.drop_last().len() implies ((
        #[trigger] blocks.drop_last()[i]) matches Some(b) ==> ops_within(b.ops, registers)) by {
            assert(blocks[i] is Some ==> ops_within(blocks[i]->0.ops, registers));
        }
        lemma_blocks_unused_beyond(blocks.drop_last(), registers, r);
    }
}

/// In a consistent state nothing has used up a register that is not
/// allocated yet.
pub proof fn lemma_unallocated_unused(st: BuilderView, r: Reg)
    requires
        st.inv(),
        st.registers.len() <= r.0,
    ensures
        used_up(st, r) == 0,
{
    reveal(BuilderView::names_in_range);
    lemma_unused_beyond(st.ops, st.registers.len(), r);
    lemma_blocks_unused_beyond(st.blocks, st.registers.len(), r);
}

/// Every register that lowering an expression allocates is used up exactly
/// once, by a drop or as an argument of a call, unless it is the value that
/// the lowering returns: then nothing has used it up, and it is the
/// caller's. No temporary is dropped twice, and none is left over.
pub proof fn lemma_temporaries_used_once(st: BuilderView, e: TypedExpr, r: Reg)
    requires
        st.inv(),
        st.current is Some,
        fits(st.lower_expr(e).0),
        st.registers.len() <= r.0 < st.lower_expr(e).0.registers.len(),
    ensures
        used_up(st.lower_expr(e).0, r) + held(st.lower_expr(e).1, r) == 1,
{
    reveal(BuilderView::names_in_range);
    lemma_unallocated_unused(st, r);
    lemma_expr_balance(st, e, st.registers.len(), r);
}

/// Lowering an expression uses up no temporary that was there before.
pub proof fn lemma_older_temporaries_untouched(st: BuilderView, e: TypedExpr, lo: nat, r: Reg)
    requires
        ready(st, lo),
        fits(st.lower_expr(e).0),
        lo <= r.0 < st.registers.len(),
    ensures
        used_up(st.lower_expr(e).0, r) == used_up(st, r),
        held(st.lower_expr(e).1, r) == 0,
{
    lemma_expr_balance(st, e, lo, r);
}

/// After an expression statement every register that it allocated has been
/// used up exactly once.
pub proof fn lemma_expression_statement_settles(st: BuilderView, s: Spanned<Statement>, r: Reg)
    requires
        st.inv(),
        st.current is Some,
        s.value is Expr,
        fits(st.lower_statement(s)),
        st.registers.len() <= r.0 < st.lower_statement(s).registers.len(),
    ensures
        used_up(st.lower_statement(s), r) == 1,
{
    let e = s.value->Expr_0;
    let (s1, value) = st.lower_expr(e);
    lemma_temporaries_used_once(st, e, r);
    lemma_used_up_drop(s1, value, e.span, r);
}

/// After a `let` every temporary that it allocated has been used up exactly
/// once, and nothing has used up the register of the new variable, which
/// is the last one allocated.
pub proof fn lemma_let_settles(st: BuilderView, s: Spanned<Statement>, r: Reg)
    requires
        st.inv(),
        st.current is Some,
        s.value is Let,
        fits(st.lower_statement(s)),
        st.registers.len() <= r.0 < st.lower_statement(s).registers.len(),
    ensures
        used_up(st.lower_statement(s), r) == if r.0 + 1 == st.lower_statement(s).registers.len() {
            0nat
        } else {
            1nat
        },
{
    match s.value {
        Statement::Let(name, typ, value) => {
            let (s1, v) = st.lower_expr(value);
            let (s2, reg) = s1.new_var_register(name.value, typ.value);
            let assign = InstructionView::Assign(reg, v.as_value());
            let s3 = s2.emit(assign, s.span);
            reveal(BuilderView::names_in_range);
            lemma_unallocated_unused(st, r);
            lemma_expr_balance(st, value, st.registers.len(), r);
            lemma_used_up_emit(s2, assign, s.span, r);
            lemma_used_up_drop(s3, v, s.span, r);
        },
        _ => {},
    }
}

} // verus!
