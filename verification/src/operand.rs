//! What lowering an expression hands back: a value to read, or a place to store to.
use crate::cfg::{Reg, Value, ValueView};
use vstd::prelude::*;

verus! {

/// The value of an expression.
#[derive(Debug, PartialEq, Eq)]
pub enum RValue {
    /// A value computed for this use. Where it is a register, whoever uses
    /// it up drops that register.
    Temp(Value),
    /// The register of a variable, which outlives the use.
    Var(Reg),
}

pub enum RValueView {
    Temp(ValueView),
    Var(Reg),
}

/// The place that an expression denotes.
#[derive(Debug, PartialEq, Eq)]
pub enum LValue {
    /// A field path into a register. The empty path is the register itself.
    Reg(Reg, Vec<usize>),
    /// A field path into what a pointer points to.
    Deref(RValue, Vec<usize>),
    /// The expression denotes no place.
    Invalid,
    /// The expression was already in error.
    Error,
}

pub enum LValueView {
    Reg(Reg, Seq<usize>),
    Deref(RValueView, Seq<usize>),
    Invalid,
    Error,
}

impl View for RValue {
    type V = RValueView;

    open spec fn view(&self) -> RValueView {
        match *self {
            RValue::Temp(v) => RValueView::Temp(v@),
            RValue::Var(r) => RValueView::Var(r),
        }
    }
}

impl View for LValue {
    type V = LValueView;

    open spec fn view(&self) -> LValueView {
        match *self {
            LValue::Reg(r, path) => LValueView::Reg(r, path@),
            LValue::Deref(ptr, path) => LValueView::Deref(ptr@, path@),
            LValue::Invalid => LValueView::Invalid,
            LValue::Error => LValueView::Error,
        }
    }
}

impl RValueView {
    /// The operand to put into an instruction.
    pub open spec fn as_value(self) -> ValueView {
        match self {
            RValueView::Temp(v) => v,
            RValueView::Var(r) => ValueView::Reg(r),
        }
    }

    /// The temporary register that this value owns, if it owns one.
    pub open spec fn owned(self) -> Option<Reg> {
        match self {
            RValueView::Temp(ValueView::Reg(r)) => Some(r),
            _ => None,
        }
    }

    /// The value names no register beyond the first `registers`.
    pub open spec fn within(self, registers: nat) -> bool {
        self.as_value().within(registers)
    }
}

impl LValueView {
    /// The place one field further in.
    pub open spec fn add_field(self, index: usize) -> LValueView {
        match self {
            LValueView::Reg(r, path) => LValueView::Reg(r, path.push(index)),
            LValueView::Deref(ptr, path) => LValueView::Deref(ptr, path.push(index)),
            LValueView::Invalid => LValueView::Invalid,
            LValueView::Error => LValueView::Error,
        }
    }

    /// The place names no register beyond the first `registers`.
    pub open spec fn within(self, registers: nat) -> bool {
        match self {
            LValueView::Reg(r, _) => r.0 < registers,
            LValueView::Deref(ptr, _) => ptr.within(registers),
            _ => true,
        }
    }
}

impl RValue {
    /// The operand to put into an instruction: the value itself, or the
    /// variable's register.
    pub fn as_value(&self) -> (v: Value)
        ensures
            v@ == self@.as_value(),
    {
        match self {
            RValue::Temp(value) => value.clone(),
            RValue::Var(reg) => Value::Reg(*reg),
        }
    }
}

impl LValue {
    /// Extends the field path by `index`. What is no place stays as it is.
    pub fn add_field(&mut self, index: usize)
        ensures
            final(self)@ == old(self)@.add_field(index),
    {
        match self {
            LValue::Reg(_, fields) => fields.push(index),
            LValue::Deref(_, fields) => fields.push(index),
            LValue::Error => {},
            LValue::Invalid => {},
        }
    }
}

} // verus!
