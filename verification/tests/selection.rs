use plank_frontend::cfg::{BinaryOp as Opcode, UnaryOp as UnaryOpcode};
use plank_frontend::cfg::{Reg, Value};
use plank_frontend::operand::{LValue, RValue};
use plank_frontend::select::{binop_to_instruction, unop_to_instruction};
use plank_frontend::typed::{BinaryOp, Literal, Number, Signedness, Size, Symbol, Type, UnaryOp};

fn u8_type() -> Type {
    Type::Int(Signedness::Unsigned, Size::Bit8)
}

#[test]
fn arithmetic_and_ordering_take_sign_and_width_of_an_integer_type() {
    let (sign, size) = (Signedness::Unsigned, Size::Bit8);
    let t = u8_type();
    assert_eq!(binop_to_instruction(BinaryOp::Add, &t), Some(Opcode::Add(sign, size)));
    assert_eq!(binop_to_instruction(BinaryOp::Subtract, &t), Some(Opcode::Sub(sign, size)));
    assert_eq!(binop_to_instruction(BinaryOp::Multiply, &t), Some(Opcode::Mul(sign, size)));
    assert_eq!(binop_to_instruction(BinaryOp::Divide, &t), Some(Opcode::Div(sign, size)));
    assert_eq!(binop_to_instruction(BinaryOp::Modulo, &t), Some(Opcode::Mod(sign, size)));
    assert_eq!(binop_to_instruction(BinaryOp::Less, &t), Some(Opcode::Less(sign, size)));
    assert_eq!(binop_to_instruction(BinaryOp::LessEqual, &t), Some(Opcode::LessEq(sign, size)));
    assert_eq!(binop_to_instruction(BinaryOp::Greater, &t), Some(Opcode::Greater(sign, size)));
    assert_eq!(
        binop_to_instruction(BinaryOp::GreaterEqual, &t),
        Some(Opcode::GreaterEq(sign, size))
    );
    let wide = Type::Int(Signedness::Signed, Size::Bit16);
    assert_eq!(
        binop_to_instruction(BinaryOp::Add, &wide),
        Some(Opcode::Add(Signedness::Signed, Size::Bit16))
    );
}

#[test]
fn arithmetic_has_no_opcode_on_other_types() {
    for t in [Type::Bool, Type::Error, Type::Pointer(std::rc::Rc::new(u8_type()))] {
        assert_eq!(binop_to_instruction(BinaryOp::Add, &t), None);
        assert_eq!(binop_to_instruction(BinaryOp::Less, &t), None);
        assert_eq!(binop_to_instruction(BinaryOp::Modulo, &t), None);
        assert_eq!(unop_to_instruction(UnaryOp::Minus, &t), None);
    }
}

#[test]
fn equality_applies_to_every_type() {
    for t in [Type::Bool, u8_type(), Type::Error] {
        assert_eq!(binop_to_instruction(BinaryOp::Equal, &t), Some(Opcode::Eq));
        assert_eq!(binop_to_instruction(BinaryOp::NotEqual, &t), Some(Opcode::Neq));
    }
}

#[test]
fn unary_opcodes() {
    assert_eq!(unop_to_instruction(UnaryOp::Deref, &Type::Bool), Some(UnaryOpcode::DerefLoad));
    assert_eq!(unop_to_instruction(UnaryOp::Not, &Type::Bool), Some(UnaryOpcode::Not));
    assert_eq!(
        unop_to_instruction(UnaryOp::Minus, &u8_type()),
        Some(UnaryOpcode::Negate(Signedness::Unsigned, Size::Bit8))
    );
}

#[test]
fn rvalue_as_value() {
    assert_eq!(RValue::Var(Reg(4)).as_value(), Value::Reg(Reg(4)));
    assert_eq!(RValue::Temp(Value::Int(7)).as_value(), Value::Int(7));
    assert_eq!(RValue::Temp(Value::Reg(Reg(2))).as_value(), Value::Reg(Reg(2)));
    assert_eq!(RValue::Temp(Value::Error).as_value(), Value::Error);
    let global = Value::Symbol(Symbol(3), vec![Type::Bool, u8_type()]);
    assert_eq!(
        RValue::Temp(global).as_value(),
        Value::Symbol(Symbol(3), vec![Type::Bool, u8_type()])
    );
}

#[test]
fn lvalue_add_field_extends_the_path_of_a_place() {
    let mut place = LValue::Reg(Reg(1), vec![]);
    place.add_field(2);
    place.add_field(0);
    assert_eq!(place, LValue::Reg(Reg(1), vec![2, 0]));
    let mut through = LValue::Deref(RValue::Var(Reg(3)), vec![5]);
    through.add_field(6);
    assert_eq!(through, LValue::Deref(RValue::Var(Reg(3)), vec![5, 6]));
    let mut invalid = LValue::Invalid;
    invalid.add_field(1);
    assert_eq!(invalid, LValue::Invalid);
    let mut error = LValue::Error;
    error.add_field(1);
    assert_eq!(error, LValue::Error);
}

#[test]
fn literal_constants() {
    let n = Number { value: 300, signedness: Some(Signedness::Signed), size: Some(Size::Bit16) };
    assert_eq!(Literal::Number(n).as_constant(), Some(300));
    assert_eq!(Literal::Bool(true).as_constant(), Some(1));
    assert_eq!(Literal::Bool(false).as_constant(), Some(0));
    assert_eq!(Literal::Char(255).as_constant(), Some(255));
    assert_eq!(Literal::Str(vec![1]).as_constant(), None);
}
