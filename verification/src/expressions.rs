//! Lowering of expressions: for their value, and for the place they denote.
use crate::builder::Builder;
use crate::cfg::{copy_types, values_view, BlockEnd, Instruction, UnaryOp, Value};
use crate::model::{as_values, plain_types};
use crate::operand::{LValue, RValue, RValueView};
use crate::position::Spanned;
use crate::select::{binop_to_instruction, unop_to_instruction};
use crate::typed::{self, Expr, Type, TypedExpr};
use vstd::prelude::*;

verus! {

/// The views of a list of values.
pub open spec fn rvalues_view(args: Seq<RValue>) -> Seq<RValueView> {
    args.map_values(|a: RValue| a@)
}

/// The types of a list of spanned types, copied.
fn types_of(types: &Vec<Spanned<Type>>) -> (plain: Vec<Type>)
    ensures
        plain@ == plain_types(types@),
{
    let mut plain: Vec<Type> = Vec::new();
    let mut i: usize = 0;
    while i < types.len()
        invariant
            i <= types.len(),
            plain@ == plain_types(types@.take(i as int)),
        decreases types.len() - i,
    {
        plain.push(types[i].value.clone());
        proof {
            assert(types@.take(i + 1) == types@.take(i as int).push(types@[i as int]));
            assert(plain@ =~= plain_types(types@.take(i + 1)));
        }
        i = i + 1;
    }
    proof {
        assert(types@.take(i as int) == types@);
    }
    plain
}

/// The operands that a list of values puts into a call.
fn operands(args: &Vec<RValue>) -> (values: Vec<Value>)
    ensures
        values_view(values@) == as_values(rvalues_view(args@)),
{
    let mut values: Vec<Value> = Vec::new();
    let mut i: usize = 0;
    while i < args.len()
        invariant
            i <= args.len(),
            values.len() == i,
            forall|k: int| 0 <= k < i ==> (#[trigger] values@[k])@ == args@[k]@.as_value(),
        decreases args.len() - i,
    {
        values.push(args[i].as_value());
        i = i + 1;
    }
    proof {
        assert(values_view(values@) =~= as_values(rvalues_view(args@)));
    }
    values
}

impl Builder {
    /// Lowers `e` for its value: emits the instructions that compute it and
    /// returns where the value is.
    ///
    /// A temporary that an instruction has used up is dropped right after
    /// that instruction; the value returned is the caller's to drop. Where no
    /// opcode applies to an operator at the type of its operand, the
    /// operands are still lowered and dropped, and the value is
    /// [`Value::Error`].
    pub fn build_expr(&mut self, e: &TypedExpr) -> (value: RValue)
        requires
            old(self).wf(),
            old(self)@.current is Some,
            e.can_lower_value(),
        ensures
            (final(self)@, value@) == old(self)@.lower_expr(*e),
            final(self).wf(),
            old(self)@.carries_on(final(self)@),
            final(self)@.vars == old(self)@.vars,
            value@.within(final(self)@.registers.len()),
        decreases e,
    {
        match &*e.expr {
            Expr::Binary(lhs, op, rhs) => {
                match op.value {
                    typed::BinaryOp::Assign => {
                        let target = self.build_expr_lvalue(lhs);
                        let value = self.build_expr(rhs);
                        self.emit_store(target, lhs.span, value.as_value());
                        value
                    },
                    typed::BinaryOp::And | typed::BinaryOp::Or => {
                        let left = self.build_expr(lhs);
                        let result = self.new_register(e.typ.clone());
                        self.emit_instruction(Instruction::Assign(result, left.as_value()), e.span);
                        self.drop_value(&left, e.span);
                        let more = self.new_block();
                        let after = self.new_block();
                        let branch = match op.value {
                            typed::BinaryOp::And => BlockEnd::Branch(
                                Value::Reg(result),
                                more,
                                after,
                            ),
                            _ => BlockEnd::Branch(Value::Reg(result), after, more),
                        };
                        self.end_block(branch, Some(after));
                        self.start_block(more);
                        let right = self.build_expr(rhs);
                        self.emit_instruction(
                            Instruction::Assign(result, right.as_value()),
                            e.span,
                        );
                        self.drop_value(&right, e.span);
                        self.end_block(BlockEnd::Jump(after), Some(after));
                        self.start_block(after);
                        let value = RValue::Temp(Value::Reg(result));
                        assert((self@, value@) == old(self)@.lower_short_circuit(*e));
                        value
                    },
                    operator => {
                        let opcode = binop_to_instruction(operator, &lhs.typ);
                        let left = self.build_expr(lhs);
                        let right = self.build_expr(rhs);
                        match opcode {
                            Some(opcode) => {
                                let result = self.new_register(e.typ.clone());
                                self.emit_instruction(
                                    Instruction::BinaryOp(
                                        result,
                                        opcode,
                                        left.as_value(),
                                        right.as_value(),
                                    ),
                                    e.span,
                                );
                                self.drop_value(&left, e.span);
                                self.drop_value(&right, e.span);
                                RValue::Temp(Value::Reg(result))
                            },
                            None => {
                                self.drop_value(&left, e.span);
                                self.drop_value(&right, e.span);
                                RValue::Temp(Value::Error)
                            },
                        }
                    },
                }
            },
            Expr::Call(name, params) => {
                let callee = self.build_expr(name);
                let ghost entered = self@;
                let mut args: Vec<RValue> = Vec::new();
                let mut i: usize = 0;
                while i < params.len()
                    invariant
                        i <= params.len(),
                        *e.expr == Expr::Call(*name, *params),
                        e.can_lower_value(),
                        self.wf(),
                        (self@, rvalues_view(args@)) == entered.lower_args(params@, i as nat),
                        entered.carries_on(self@),
                        self@.vars == entered.vars,
                        callee@.within(self@.registers.len()),
                        forall|k: int|
                            0 <= k < args@.len() ==> (#[trigger] args@[k])@.within(
                                self@.registers.len(),
                            ),
                    decreases params.len() - i,
                {
                    proof {
                        assert(e.expr->Call_1 == *params);
                        assert(decreases_to!(e => e.expr));
                        assert(decreases_to!(*e.expr => e.expr->Call_1));
                        assert(decreases_to!(*params => params@));
                        assert(decreases_to!(params@ => params@[i as int]));
                        assert(params@[i as int].can_lower_value());
                    }
                    let ghost lowered = rvalues_view(args@);
                    let arg = self.build_expr(&params[i]);
                    args.push(arg);
                    proof {
                        assert(rvalues_view(args@) =~= lowered.push(arg@));
                    }
                    i = i + 1;
                }
                let values = operands(&args);
                let target = self.new_register(e.typ.clone());
                let call = match &callee {
                    RValue::Temp(Value::Symbol(symbol, types)) => Instruction::Call(
                        target,
                        *symbol,
                        copy_types(types),
                        values,
                    ),
                    _ => Instruction::VirtualCall(target, callee.as_value(), values),
                };
                self.emit_instruction(call, e.span);
                self.drop_value(&callee, name.span);
                RValue::Temp(Value::Reg(target))
            },
            Expr::Error => RValue::Temp(Value::Error),
            Expr::Field(base, index) => {
                let value = self.build_expr(base);
                let target = self.new_register(e.typ.clone());
                let mut path: Vec<usize> = Vec::new();
                path.push(index.value);
                self.emit_instruction(
                    Instruction::UnaryOp(target, UnaryOp::FieldLoad(path), value.as_value()),
                    e.span,
                );
                self.drop_value(&value, e.span);
                RValue::Temp(Value::Reg(target))
            },
            Expr::Literal(literal) => match literal.as_constant() {
                Some(n) => RValue::Temp(Value::Int(n)),
                None => RValue::Temp(Value::Error),
            },
            Expr::Name(name, type_args) => match self.lookup(name.value) {
                Some(reg) => RValue::Var(reg),
                None => RValue::Temp(Value::Symbol(name.value, types_of(type_args))),
            },
            Expr::Unary(op, operand) => {
                match op.value {
                    typed::UnaryOp::AddressOf => {
                        let place = self.build_expr_lvalue(operand);
                        let result = self.new_register(e.typ.clone());
                        self.emit_take_address(result, operand.span, place);
                        RValue::Temp(Value::Reg(result))
                    },
                    operator => {
                        let opcode = unop_to_instruction(operator, &operand.typ);
                        let value = self.build_expr(operand);
                        match opcode {
                            Some(opcode) => {
                                let result = self.new_register(e.typ.clone());
                                self.emit_instruction(
                                    Instruction::UnaryOp(result, opcode, value.as_value()),
                                    e.span,
                                );
                                self.drop_value(&value, e.span);
                                RValue::Temp(Value::Reg(result))
                            },
                            None => {
                                self.drop_value(&value, e.span);
                                RValue::Temp(Value::Error)
                            },
                        }
                    },
                }
            },
        }
    }

    /// Lowers `e` for the place it denotes.
    ///
    /// A chain of field accesses yields one place with the whole path. An
    /// expression that denotes no place yields [`LValue::Invalid`] and is not
    /// evaluated: the report is made where the place is used.
    pub fn build_expr_lvalue(&mut self, e: &TypedExpr) -> (place: LValue)
        requires
            old(self).wf(),
            old(self)@.current is Some,
            e.can_lower_place(),
        ensures
            (final(self)@, place@) == old(self)@.lower_place(*e),
            final(self).wf(),
            old(self)@.carries_on(final(self)@),
            final(self)@.vars == old(self)@.vars,
            place@.within(final(self)@.registers.len()),
        decreases e,
    {
        match &*e.expr {
            Expr::Binary(_, _, _) => LValue::Invalid,
            Expr::Call(_, _) => LValue::Invalid,
            Expr::Literal(_) => LValue::Invalid,
            Expr::Error => LValue::Error,
            Expr::Field(base, index) => {
                let mut place = self.build_expr_lvalue(base);
                place.add_field(index.value);
                place
            },
            Expr::Name(name, _) => match self.lookup(name.value) {
                Some(reg) => LValue::Reg(reg, Vec::new()),
                None => LValue::Invalid,
            },
            Expr::Unary(op, operand) => match op.value {
                typed::UnaryOp::Deref => {
                    let ptr = self.build_expr(operand);
                    LValue::Deref(ptr, Vec::new())
                },
                _ => LValue::Invalid,
            },
        }
    }
}

} // verus!
