//! Which trees the lowering accepts.
//!
//! Two forms have no lowering: a string literal and a unary plus, each where
//! its value is wanted. Where only a place is wanted (the target of an
//! assignment, the operand of address-of) an expression that is no place is
//! reported and not evaluated, so nothing is asked of what it contains.
use crate::typed::{BinaryOp, Expr, Function, Program, Statement, TypedExpr, UnaryOp};
use vstd::prelude::*;

verus! {

impl TypedExpr {
    /// Whether the expression can be lowered where its value is wanted.
    pub open spec fn can_lower_value(self) -> bool
        decreases self,
    {
        match *self.expr {
            Expr::Binary(lhs, op, rhs) => {
                &&& if op.value == BinaryOp::Assign {
                    lhs.can_lower_place()
                } else {
                    lhs.can_lower_value()
                }
                &&& rhs.can_lower_value()
            },
            Expr::Unary(op, operand) => match op.value {
                UnaryOp::Plus => false,
                UnaryOp::AddressOf => operand.can_lower_place(),
                _ => operand.can_lower_value(),
            },
            Expr::Call(callee, params) => {
                &&& callee.can_lower_value()
                &&& forall|i: int|
                    0 <= i < params@.len() ==> (#[trigger] params@[i]).can_lower_value()
            },
            Expr::Field(base, _) => base.can_lower_value(),
            Expr::Name(_, _) => true,
            Expr::Literal(literal) => literal.constant() is Some,
            Expr::Error => true,
        }
    }

    /// Whether the expression can be lowered where a place to store to is wanted.
    pub open spec fn can_lower_place(self) -> bool
        decreases self,
    {
        match *self.expr {
            Expr::Field(base, _) => base.can_lower_place(),
            Expr::Unary(op, operand) => op.value == UnaryOp::Deref ==> operand.can_lower_value(),
            _ => true,
        }
    }

    /// Decides [`TypedExpr::can_lower_value`].
    pub fn is_lowerable_value(&self) -> (ok: bool)
        ensures
            ok == self.can_lower_value(),
        decreases self,
    {
        match &*self.expr {
            Expr::Binary(lhs, op, rhs) => {
                let left = match op.value {
                    BinaryOp::Assign => lhs.is_lowerable_place(),
                    _ => lhs.is_lowerable_value(),
                };
                left && rhs.is_lowerable_value()
            },
            Expr::Unary(op, operand) => match op.value {
                UnaryOp::Plus => false,
                UnaryOp::AddressOf => operand.is_lowerable_place(),
                _ => operand.is_lowerable_value(),
            },
            Expr::Call(callee, params) => {
                if !callee.is_lowerable_value() {
                    return false;
                }
                let mut i: usize = 0;
                while i < params.len()
                    invariant
                        i <= params.len(),
                        *self.expr == Expr::Call(*callee, *params),
                        forall|k: int| 0 <= k < i ==> (#[trigger] params@[k]).can_lower_value(),
                    decreases params.len() - i,
                {
                    assert(decreases_to!(self => params@[i as int])) by {
                        assert(self.expr->Call_1 == *params);
                        assert(decreases_to!(self => self.expr));
                        assert(decreases_to!(*self.expr => self.expr->Call_1));
                        assert(decreases_to!(*params => params@));
                        assert(decreases_to!(params@ => params@[i as int]));
                    }
                    if !params[i].is_lowerable_value() {
                        assert(self.expr->Call_1@[i as int] == params@[i as int]);
                        return false;
                    }
                    i = i + 1;
                }
                true
            },
            Expr::Field(base, _) => base.is_lowerable_value(),
            Expr::Name(_, _) => true,
            Expr::Literal(literal) => literal.as_constant().is_some(),
            Expr::Error => true,
        }
    }

    /// Decides [`TypedExpr::can_lower_place`].
    pub fn is_lowerable_place(&self) -> (ok: bool)
        ensures
            ok == self.can_lower_place(),
        decreases self,
    {
        match &*self.expr {
            Expr::Field(base, _) => base.is_lowerable_place(),
            Expr::Unary(op, operand) => match op.value {
                UnaryOp::Deref => operand.is_lowerable_value(),
                _ => true,
            },
            _ => true,
        }
    }
}

impl Statement {
    /// Whether every expression of the statement can be lowered.
    pub open spec fn can_lower(self) -> bool
        decreases self,
    {
        match self {
            Statement::If(cond, then, otherwise) => {
                &&& cond.can_lower_value()
                &&& then.value.can_lower()
                &&& otherwise matches Some(other) ==> other.value.can_lower()
            },
            Statement::Loop(body) => body.value.can_lower(),
            Statement::While(cond, body) => cond.can_lower_value() && body.value.can_lower(),
            Statement::Break => true,
            Statement::Continue => true,
            Statement::Return(value) => value.can_lower_value(),
            Statement::Let(_, _, value) => value.can_lower_value(),
            Statement::Block(statements) => forall|i: int|
                0 <= i < statements@.len() ==> (#[trigger] statements@[i]).value.can_lower(),
            Statement::Expr(e) => e.can_lower_value(),
        }
    }

    /// Decides [`Statement::can_lower`].
    pub fn is_lowerable(&self) -> (ok: bool)
        ensures
            ok == self.can_lower(),
        decreases self,
    {
        match self {
            Statement::If(cond, then, otherwise) => {
                let arms = match otherwise {
                    Some(other) => then.value.is_lowerable() && other.value.is_lowerable(),
                    None => then.value.is_lowerable(),
                };
                cond.is_lowerable_value() && arms
            },
            Statement::Loop(body) => body.value.is_lowerable(),
            Statement::While(cond, body) => cond.is_lowerable_value() && body.value.is_lowerable(),
            Statement::Break => true,
            Statement::Continue => true,
            Statement::Return(value) => value.is_lowerable_value(),
            Statement::Let(_, _, value) => value.is_lowerable_value(),
            Statement::Block(statements) => {
                let mut i: usize = 0;
                while i < statements.len()
                    invariant
                        i <= statements.len(),
                        *self == Statement::Block(*statements),
                        forall|k: int|
                            0 <= k < i ==> (#[trigger] statements@[k]).value.can_lower(),
                    decreases statements.len() - i,
                {
                    assert(decreases_to!(self => statements@[i as int].value)) by {
                        assert(self->Block_0 == *statements);
                        assert(decreases_to!(*self => self->Block_0));
                        assert(decreases_to!(*statements => statements@));
                        assert(decreases_to!(statements@ => statements@[i as int]));
                    }
                    if !statements[i].value.is_lowerable() {
                        assert(self->Block_0@[i as int] == statements@[i as int]);
                        return false;
                    }
                    i = i + 1;
                }
                true
            },
            Statement::Expr(e) => e.is_lowerable_value(),
        }
    }
}

impl Function {
    /// Whether the body, if there is one, can be lowered.
    pub open spec fn can_lower(self) -> bool {
        self.body matches Some(body) ==> body.value.can_lower()
    }

    /// Decides [`Function::can_lower`].
    pub fn is_lowerable(&self) -> (ok: bool)
        ensures
            ok == self.can_lower(),
    {
        match &self.body {
            Some(body) => body.value.is_lowerable(),
            None => true,
        }
    }
}

impl Program {
    /// Whether every function of the program can be lowered.
    pub open spec fn can_lower(self) -> bool {
        forall|i: int| 0 <= i < self.functions@.len() ==> (#[trigger] self.functions@[i]).can_lower()
    }

    /// Decides [`Program::can_lower`].
    pub fn is_lowerable(&self) -> (ok: bool)
        ensures
            ok == self.can_lower(),
    {
        let mut i: usize = 0;
        while i < self.functions.len()
            invariant
                i <= self.functions.len(),
                forall|k: int| 0 <= k < i ==> (#[trigger] self.functions@[k]).can_lower(),
            decreases self.functions.len() - i,
        {
            if !self.functions[i].is_lowerable() {
                return false;
            }
            i = i + 1;
        }
        true
    }
}

} // verus!
