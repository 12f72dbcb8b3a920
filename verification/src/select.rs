//! Instruction selection: from a source operator and the static type of its
//! operand to the opcode of the graph.
use crate::cfg;
use crate::typed::{BinaryOp, Type, UnaryOp};
use vstd::prelude::*;

verus! {

/// The opcode for a binary operator on operands of type `arg_type`.
///
/// Arithmetic and ordering need an integer type and take its signedness and
/// width; equality and inequality apply to every type. Assignment and the
/// two logical operators have no opcode: they are lowered on their own.
pub open spec fn binary_opcode(op: BinaryOp, arg_type: Type) -> Option<cfg::BinaryOp> {
    match (op, arg_type.int_parts()) {
        (BinaryOp::Equal, _) => Some(cfg::BinaryOp::Eq),
        (BinaryOp::NotEqual, _) => Some(cfg::BinaryOp::Neq),
        (BinaryOp::Add, Some((sign, size))) => Some(cfg::BinaryOp::Add(sign, size)),
        (BinaryOp::Subtract, Some((sign, size))) => Some(cfg::BinaryOp::Sub(sign, size)),
        (BinaryOp::Multiply, Some((sign, size))) => Some(cfg::BinaryOp::Mul(sign, size)),
        (BinaryOp::Divide, Some((sign, size))) => Some(cfg::BinaryOp::Div(sign, size)),
        (BinaryOp::Modulo, Some((sign, size))) => Some(cfg::BinaryOp::Mod(sign, size)),
        (BinaryOp::Less, Some((sign, size))) => Some(cfg::BinaryOp::Less(sign, size)),
        (BinaryOp::LessEqual, Some((sign, size))) => Some(cfg::BinaryOp::LessEq(sign, size)),
        (BinaryOp::Greater, Some((sign, size))) => Some(cfg::BinaryOp::Greater(sign, size)),
        (BinaryOp::GreaterEqual, Some((sign, size))) => Some(cfg::BinaryOp::GreaterEq(sign, size)),
        _ => None,
    }
}

/// The opcode for a unary operator on an operand of type `arg_type`.
///
/// Negation needs an integer type; logical not and dereference apply to every
/// type. Unary plus and address-of have no opcode.
pub open spec fn unary_opcode(op: UnaryOp, arg_type: Type) -> Option<cfg::UnaryOpView> {
    match (op, arg_type.int_parts()) {
        (UnaryOp::Deref, _) => Some(cfg::UnaryOpView::DerefLoad),
        (UnaryOp::Not, _) => Some(cfg::UnaryOpView::Not),
        (UnaryOp::Minus, Some((sign, size))) => Some(cfg::UnaryOpView::Negate(sign, size)),
        _ => None,
    }
}

/// Selects the opcode for a binary operator other than assignment, `and` and `or`.
pub fn binop_to_instruction(op: BinaryOp, arg_type: &Type) -> (opcode: Option<cfg::BinaryOp>)
    requires
        op != BinaryOp::And,
        op != BinaryOp::Or,
        op != BinaryOp::Assign,
    ensures
        opcode == binary_opcode(op, *arg_type),
{
    let parts = match arg_type {
        Type::Int(sign, size) => Some((*sign, *size)),
        _ => None,
    };
    match op {
        BinaryOp::Equal => Some(cfg::BinaryOp::Eq),
        BinaryOp::NotEqual => Some(cfg::BinaryOp::Neq),
        _ => match parts {
            None => None,
            Some((sign, size)) => match op {
                BinaryOp::Add => Some(cfg::BinaryOp::Add(sign, size)),
                BinaryOp::Subtract => Some(cfg::BinaryOp::Sub(sign, size)),
                BinaryOp::Multiply => Some(cfg::BinaryOp::Mul(sign, size)),
                BinaryOp::Divide => Some(cfg::BinaryOp::Div(sign, size)),
                BinaryOp::Modulo => Some(cfg::BinaryOp::Mod(sign, size)),
                BinaryOp::Less => Some(cfg::BinaryOp::Less(sign, size)),
                BinaryOp::LessEqual => Some(cfg::BinaryOp::LessEq(sign, size)),
                BinaryOp::Greater => Some(cfg::BinaryOp::Greater(sign, size)),
                BinaryOp::GreaterEqual => Some(cfg::BinaryOp::GreaterEq(sign, size)),
                _ => None,
            },
        },
    }
}

/// Selects the opcode for a unary operator other than plus and address-of.
pub fn unop_to_instruction(op: UnaryOp, arg_type: &Type) -> (opcode: Option<cfg::UnaryOp>)
    requires
        op != UnaryOp::Plus,
        op != UnaryOp::AddressOf,
    ensures
        match opcode {
            Some(found) => unary_opcode(op, *arg_type) == Some(found@),
            None => unary_opcode(op, *arg_type) is None,
        },
{
    match op {
        UnaryOp::Deref => Some(cfg::UnaryOp::DerefLoad),
        UnaryOp::Not => Some(cfg::UnaryOp::Not),
        _ => match arg_type {
            Type::Int(sign, size) => Some(cfg::UnaryOp::Negate(*sign, *size)),
            _ => None,
        },
    }
}

} // verus!
