use plank_frontend::builder::Builder;
use plank_frontend::cfg::{BinaryOp as Opcode, Function as Graph, UnaryOp as UnaryOpcode};
use plank_frontend::cfg::{Block, BlockEnd, BlockId, Instruction, Reg, Value};
use plank_frontend::diagnostics::{CompileCtx, Diagnostic, Problem};
use plank_frontend::lower::{build_cfg, compile_fn};
use plank_frontend::operand::{LValue, RValue};
use plank_frontend::position::{Position, Span, Spanned};
use plank_frontend::typed::{
    BinaryOp, Expr, Function, FunctionType, Literal, Number, Program, Signedness, Size, Statement,
    Struct, Symbol, Type, TypedExpr, UnaryOp, Var,
};
use std::rc::Rc;

fn at(line: u32) -> Span {
    Span::new(Position::new(line, 1), Position::new(line, 9))
}

fn i32_type() -> Type {
    Type::Int(Signedness::Signed, Size::Bit32)
}

fn expr(e: Expr, line: u32, typ: Type) -> TypedExpr {
    TypedExpr { expr: Box::new(e), span: at(line), typ }
}

fn name(symbol: u32, line: u32, typ: Type) -> TypedExpr {
    expr(Expr::Name(Spanned::new(Symbol(symbol), at(line)), Vec::new()), line, typ)
}

fn number(value: u64, line: u32) -> TypedExpr {
    let literal = Literal::Number(Number { value, signedness: None, size: None });
    expr(Expr::Literal(literal), line, i32_type())
}

fn binary(lhs: TypedExpr, op: BinaryOp, rhs: TypedExpr, line: u32, typ: Type) -> TypedExpr {
    expr(Expr::Binary(lhs, Spanned::new(op, at(line)), rhs), line, typ)
}

fn unary(op: UnaryOp, operand: TypedExpr, line: u32, typ: Type) -> TypedExpr {
    expr(Expr::Unary(Spanned::new(op, at(line)), operand), line, typ)
}

fn field(base: TypedExpr, index: usize, line: u32) -> TypedExpr {
    expr(Expr::Field(base, Spanned::new(index, at(line))), line, i32_type())
}

fn call(callee: TypedExpr, params: Vec<TypedExpr>, line: u32) -> TypedExpr {
    expr(Expr::Call(callee, params), line, i32_type())
}

fn stmt(s: Statement, line: u32) -> Spanned<Statement> {
    Spanned::new(s, at(line))
}

fn boxed(s: Statement, line: u32) -> Box<Spanned<Statement>> {
    Box::new(stmt(s, line))
}

fn function(name: u32, params: Vec<Var>, body: Option<Spanned<Statement>>) -> Function {
    Function {
        fn_type: FunctionType::Normal,
        name: Symbol(name),
        type_params: Vec::new(),
        params,
        return_type: i32_type(),
        body,
    }
}

fn param(symbol: u32, typ: Type) -> Var {
    Var { name: Symbol(symbol), typ }
}

fn lower(f: &Function) -> (Graph, Vec<Diagnostic>) {
    assert!(f.is_lowerable());
    let mut ctx = CompileCtx::new();
    let out = compile_fn(f, &mut ctx);
    (out, ctx.diagnostics)
}

/// A builder with one block open and the variables 1, 2, 3 in registers 0, 1, 2.
fn open_builder() -> Builder {
    let mut b = Builder::new();
    b.new_var_register(Symbol(1), i32_type());
    b.new_var_register(Symbol(2), i32_type());
    b.new_var_register(Symbol(3), Type::Bool);
    let entry = b.new_block();
    b.start_block(entry);
    b
}

fn close(mut b: Builder) -> (Graph, Vec<Diagnostic>) {
    if b.has_open_block() {
        b.end_block(BlockEnd::Error, None);
    }
    b.finish(Vec::new(), BlockId(0))
}

fn values(ops: &[Spanned<Instruction>]) -> Vec<&Instruction> {
    ops.iter().map(|op| &op.value).collect()
}

fn count_drops(f: &Graph, reg: Reg) -> usize {
    f.blocks
        .iter()
        .flat_map(|b| b.ops.iter())
        .filter(|op| op.value == Instruction::Drop(reg))
        .count()
}

fn successors(end: &BlockEnd) -> Vec<BlockId> {
    match end {
        BlockEnd::Jump(to) => vec![*to],
        BlockEnd::Branch(_, yes, no) => vec![*yes, *no],
        BlockEnd::Return(_) => vec![],
        BlockEnd::Error => vec![],
    }
}

fn reachable(f: &Graph) -> Vec<BlockId> {
    let mut seen = vec![f.start_block];
    let mut next = 0;
    while next < seen.len() {
        for to in successors(&f.blocks[seen[next].0].end) {
            if !seen.contains(&to) {
                seen.push(to);
            }
        }
        next += 1;
    }
    seen.sort();
    seen
}

fn add_one_function() -> Function {
    // fn f(x: i32) -> i32 { let y: i32 = x + 1; return y; }
    let sum = binary(name(1, 2, i32_type()), BinaryOp::Add, number(1, 2), 2, i32_type());
    let body = Statement::Block(vec![
        stmt(Statement::Let(Spanned::new(Symbol(2), at(2)), Spanned::new(i32_type(), at(2)), sum), 2),
        stmt(Statement::Return(name(2, 3, i32_type())), 3),
    ]);
    function(10, vec![param(1, i32_type())], Some(stmt(body, 1)))
}

#[test]
fn let_and_return_lower_into_the_entry_block() {
    let (f, reports) = lower(&add_one_function());
    assert!(reports.is_empty());
    assert_eq!(f.start_block, BlockId(0));
    assert_eq!(f.registers, vec![i32_type(), i32_type(), i32_type()]);
    let add = Opcode::Add(Signedness::Signed, Size::Bit32);
    let entry = &f.blocks[0];
    assert_eq!(
        entry.ops,
        vec![
            Spanned::new(Instruction::StartStatement, at(2)),
            Spanned::new(
                Instruction::BinaryOp(Reg(1), add, Value::Reg(Reg(0)), Value::Int(1)),
                at(2)
            ),
            Spanned::new(Instruction::Assign(Reg(2), Value::Reg(Reg(1))), at(2)),
            Spanned::new(Instruction::Drop(Reg(1)), at(2)),
            Spanned::new(Instruction::StartStatement, at(3)),
        ]
    );
    assert_eq!(entry.end, BlockEnd::Return(Value::Reg(Reg(2))));
    assert_eq!(reachable(&f), vec![BlockId(0)]);
}

#[test]
fn block_after_return_is_weakly_linked_and_closed_with_error() {
    let (f, _) = lower(&add_one_function());
    assert_eq!(f.blocks.len(), 2);
    assert_eq!(f.blocks[0].weak_link, Some(BlockId(1)));
    assert_eq!(f.blocks[1], Block { ops: vec![], end: BlockEnd::Error, weak_link: None });
}

#[test]
fn while_with_break_jumps_straight_to_the_block_after() {
    // while (c) break;
    let body = Statement::While(name(3, 1, Type::Bool), boxed(Statement::Break, 2));
    let mut b = open_builder();
    b.build_statement(&stmt(body, 1));
    let (f, reports) = close(b);
    assert!(reports.is_empty());
    let (start, body_start, after) = (BlockId(1), BlockId(2), BlockId(3));
    assert_eq!(f.blocks[0].end, BlockEnd::Jump(start));
    assert_eq!(f.blocks[0].weak_link, Some(start));
    assert_eq!(f.blocks[1].ops, vec![]);
    assert_eq!(f.blocks[1].end, BlockEnd::Branch(Value::Reg(Reg(2)), body_start, after));
    assert_eq!(f.blocks[1].weak_link, Some(after));
    assert_eq!(f.blocks[2].ops, vec![]);
    assert_eq!(f.blocks[2].end, BlockEnd::Jump(after));
    assert_eq!(f.blocks[2].weak_link, Some(BlockId(4)));
    // the block opened after `break` is what jumps back to the start
    assert_eq!(f.blocks[4].end, BlockEnd::Jump(start));
    assert_eq!(f.blocks[4].weak_link, Some(after));
    assert_eq!(f.blocks[3].end, BlockEnd::Error);
}

#[test]
fn while_drops_a_temporary_condition_on_both_ways_out() {
    // while (x < y) {}
    let cond = binary(name(1, 1, i32_type()), BinaryOp::Less, name(2, 1, i32_type()), 1, Type::Bool);
    let body = Statement::While(cond, boxed(Statement::Block(vec![]), 2));
    let mut b = open_builder();
    b.build_statement(&stmt(body, 1));
    let (f, _) = close(b);
    let less = Opcode::Less(Signedness::Signed, Size::Bit32);
    assert_eq!(
        values(&f.blocks[1].ops),
        vec![&Instruction::BinaryOp(Reg(3), less, Value::Reg(Reg(0)), Value::Reg(Reg(1)))]
    );
    assert_eq!(f.blocks[1].end, BlockEnd::Branch(Value::Reg(Reg(3)), BlockId(2), BlockId(3)));
    assert_eq!(values(&f.blocks[2].ops), vec![&Instruction::Drop(Reg(3))]);
    assert_eq!(f.blocks[2].end, BlockEnd::Jump(BlockId(1)));
    assert_eq!(values(&f.blocks[3].ops), vec![&Instruction::Drop(Reg(3))]);
}

#[test]
fn assignment_to_field_of_unknown_name_is_reported() {
    // x.field = 5, where x is no local
    let target = field(name(77, 4, i32_type()), 0, 4);
    let assign = binary(target, BinaryOp::Assign, number(5, 4), 4, i32_type());
    let mut b = open_builder();
    let place = b.build_expr_lvalue(&field(name(77, 4, i32_type()), 0, 4));
    assert_eq!(place, LValue::Invalid);
    let value = b.build_expr(&assign);
    assert_eq!(value, RValue::Temp(Value::Int(5)));
    let (f, reports) = close(b);
    assert_eq!(reports, vec![Diagnostic { problem: Problem::InvalidLvalue, span: at(4) }]);
    assert_eq!(f.blocks[0].ops, vec![]);
}

#[test]
fn lowering_twice_gives_the_same_graph() {
    let f = add_one_function();
    let mut ctx = CompileCtx::new();
    ctx.diagnostics.push(Diagnostic { problem: Problem::InvalidLvalue, span: at(9) });
    let first = compile_fn(&f, &mut ctx);
    let second = compile_fn(&f, &mut ctx);
    assert_eq!(first, second);
    assert_eq!(ctx.diagnostics.len(), 1);
}

#[test]
fn every_named_block_and_register_exists() {
    // loop { if (c) { break; } else { continue; } x = x + 1; }
    let inner_if = Statement::If(
        name(3, 2, Type::Bool),
        boxed(Statement::Break, 2),
        Some(boxed(Statement::Continue, 3)),
    );
    let sum = binary(name(1, 4, i32_type()), BinaryOp::Add, number(1, 4), 4, i32_type());
    let step = binary(name(1, 4, i32_type()), BinaryOp::Assign, sum, 4, i32_type());
    let body = Statement::Block(vec![stmt(inner_if, 2), stmt(Statement::Expr(step), 4)]);
    let f = function(
        10,
        vec![param(1, i32_type()), param(2, i32_type()), param(3, Type::Bool)],
        Some(stmt(Statement::Loop(boxed(body, 1)), 1)),
    );
    let (g, reports) = lower(&f);
    assert!(reports.is_empty());
    assert!(g.start_block.0 < g.blocks.len());
    for block in &g.blocks {
        for to in successors(&block.end) {
            assert!(to.0 < g.blocks.len());
        }
        if let Some(link) = block.weak_link {
            assert!(link.0 < g.blocks.len());
        }
        for op in &block.ops {
            if let Instruction::BinaryOp(to, _, _, _) = op.value {
                assert!(to.0 < g.registers.len());
            }
        }
    }
}

#[test]
fn break_in_nested_loops_leaves_the_inner_one() {
    // loop { loop { break; } continue; }
    let inner = Statement::Loop(boxed(Statement::Break, 2));
    let outer_body = Statement::Block(vec![stmt(inner, 2), stmt(Statement::Continue, 3)]);
    let mut b = open_builder();
    b.build_statement(&stmt(Statement::Loop(boxed(outer_body, 1)), 1));
    let (f, reports) = close(b);
    assert!(reports.is_empty());
    // outer loop: start 1, after 2; inner loop: start 3, after 4
    assert_eq!(f.blocks[0].end, BlockEnd::Jump(BlockId(1)));
    assert_eq!(f.blocks[1].end, BlockEnd::Jump(BlockId(3)));
    // `break` in the inner body
    assert_eq!(f.blocks[3].end, BlockEnd::Jump(BlockId(4)));
    // `continue` after the inner loop, in the outer body
    assert_eq!(values(&f.blocks[4].ops), vec![&Instruction::StartStatement]);
    assert_eq!(f.blocks[4].end, BlockEnd::Jump(BlockId(1)));
}

#[test]
fn break_and_continue_outside_loop_are_reported() {
    let mut b = open_builder();
    b.build_statement(&stmt(Statement::Break, 5));
    b.build_statement(&stmt(Statement::Continue, 6));
    let (f, reports) = close(b);
    assert_eq!(
        reports,
        vec![
            Diagnostic { problem: Problem::BreakOutsideLoop, span: at(5) },
            Diagnostic { problem: Problem::ContinueOutsideLoop, span: at(6) },
        ]
    );
    assert_eq!(f.blocks.len(), 1);
    assert_eq!(f.blocks[0], Block { ops: vec![], end: BlockEnd::Error, weak_link: None });
}

#[test]
fn problems_have_their_messages() {
    assert_eq!(Problem::InvalidLvalue.message(), "invalid lvalue");
    assert_eq!(Problem::BreakOutsideLoop.message(), "cannot use `break` outside loop");
    assert_eq!(Problem::ContinueOutsideLoop.message(), "cannot use `continue` outside loop");
}

#[test]
fn each_temporary_is_dropped_once() {
    // (x + 1) * (y - 2);
    let left = binary(name(1, 1, i32_type()), BinaryOp::Add, number(1, 1), 1, i32_type());
    let right = binary(name(2, 1, i32_type()), BinaryOp::Subtract, number(2, 1), 1, i32_type());
    let product = binary(left, BinaryOp::Multiply, right, 1, i32_type());
    let mut b = open_builder();
    b.build_statement(&stmt(Statement::Expr(product), 1));
    let (f, _) = close(b);
    assert_eq!(f.registers.len(), 6);
    for reg in 0..3 {
        assert_eq!(count_drops(&f, Reg(reg)), 0);
    }
    for reg in 3..6 {
        assert_eq!(count_drops(&f, Reg(reg)), 1);
    }
    assert_eq!(
        values(&f.blocks[0].ops)[2..],
        [
            &Instruction::BinaryOp(
                Reg(5),
                Opcode::Mul(Signedness::Signed, Size::Bit32),
                Value::Reg(Reg(3)),
                Value::Reg(Reg(4))
            ),
            &Instruction::Drop(Reg(3)),
            &Instruction::Drop(Reg(4)),
            &Instruction::Drop(Reg(5)),
        ]
    );
}

#[test]
fn field_chain_assignment_is_one_store() {
    // a.b.c.d = x, with b, c, d the fields 4, 0, 7
    let target = field(field(field(name(1, 1, i32_type()), 4, 1), 0, 1), 7, 1);
    let assign = binary(target, BinaryOp::Assign, name(2, 1, i32_type()), 1, i32_type());
    let mut b = open_builder();
    let value = b.build_expr(&assign);
    assert_eq!(value, RValue::Var(Reg(1)));
    let (f, reports) = close(b);
    assert!(reports.is_empty());
    assert_eq!(
        f.blocks[0].ops,
        vec![Spanned::new(
            Instruction::FieldStore(Reg(0), vec![4, 0, 7], Value::Reg(Reg(1))),
            at(1)
        )]
    );
    assert_eq!(f.registers.len(), 3);
}

#[test]
fn store_through_pointer_drops_the_pointer_temporary() {
    // (*f()).2 = 9
    let ptr = call(name(50, 1, i32_type()), vec![], 1);
    let target = field(unary(UnaryOp::Deref, ptr, 1, i32_type()), 2, 1);
    let assign = binary(target, BinaryOp::Assign, number(9, 1), 1, i32_type());
    let mut b = open_builder();
    b.build_expr(&assign);
    let (f, _) = close(b);
    assert_eq!(
        values(&f.blocks[0].ops),
        vec![
            &Instruction::Call(Reg(3), Symbol(50), vec![], vec![]),
            &Instruction::DerefStore(Value::Reg(Reg(3)), vec![2], Value::Int(9)),
            &Instruction::Drop(Reg(3)),
        ]
    );
}

#[test]
fn address_of_local_field_and_of_pointer_target() {
    let mut b = open_builder();
    let a = b.build_expr(&unary(UnaryOp::AddressOf, field(name(1, 1, i32_type()), 3, 1), 1, i32_type()));
    assert_eq!(a, RValue::Temp(Value::Reg(Reg(3))));
    let through = unary(UnaryOp::Deref, name(2, 2, i32_type()), 2, i32_type());
    b.build_expr(&unary(UnaryOp::AddressOf, field(through, 1, 2), 2, i32_type()));
    b.build_expr(&unary(UnaryOp::AddressOf, number(1, 3), 3, i32_type()));
    let (f, reports) = close(b);
    assert_eq!(
        values(&f.blocks[0].ops),
        vec![
            &Instruction::TakeAddress(Reg(3), Reg(0), vec![3]),
            &Instruction::UnaryOp(Reg(4), UnaryOpcode::OffsetAddress(vec![1]), Value::Reg(Reg(1))),
        ]
    );
    assert_eq!(reports, vec![Diagnostic { problem: Problem::InvalidLvalue, span: at(3) }]);
    assert_eq!(f.registers.len(), 6);
}

#[test]
fn call_of_global_is_static_and_of_local_is_virtual() {
    // g(x, y + 1); x(y);
    let arg = binary(name(2, 1, i32_type()), BinaryOp::Add, number(1, 1), 1, i32_type());
    let callee = expr(
        Expr::Name(Spanned::new(Symbol(60), at(1)), vec![Spanned::new(Type::Bool, at(1))]),
        1,
        i32_type(),
    );
    let mut b = open_builder();
    let first = b.build_expr(&call(callee, vec![name(1, 1, i32_type()), arg], 1));
    assert_eq!(first, RValue::Temp(Value::Reg(Reg(4))));
    b.build_expr(&call(name(1, 2, i32_type()), vec![name(2, 2, i32_type())], 2));
    let (f, _) = close(b);
    assert_eq!(
        values(&f.blocks[0].ops),
        vec![
            &Instruction::BinaryOp(
                Reg(3),
                Opcode::Add(Signedness::Signed, Size::Bit32),
                Value::Reg(Reg(1)),
                Value::Int(1)
            ),
            &Instruction::Call(
                Reg(4),
                Symbol(60),
                vec![Type::Bool],
                vec![Value::Reg(Reg(0)), Value::Reg(Reg(3))]
            ),
            &Instruction::VirtualCall(Reg(5), Value::Reg(Reg(0)), vec![Value::Reg(Reg(1))]),
        ]
    );
}

#[test]
fn field_access_loads_by_index_and_drops_its_base() {
    // f().3
    let mut b = open_builder();
    let v = b.build_expr(&field(call(name(50, 1, i32_type()), vec![], 1), 3, 1));
    assert_eq!(v, RValue::Temp(Value::Reg(Reg(4))));
    let (f, _) = close(b);
    assert_eq!(
        values(&f.blocks[0].ops),
        vec![
            &Instruction::Call(Reg(3), Symbol(50), vec![], vec![]),
            &Instruction::UnaryOp(Reg(4), UnaryOpcode::FieldLoad(vec![3]), Value::Reg(Reg(3))),
            &Instruction::Drop(Reg(3)),
        ]
    );
}

#[test]
fn literals_lower_to_integer_constants() {
    let mut b = open_builder();
    let yes = b.build_expr(&expr(Expr::Literal(Literal::Bool(true)), 1, Type::Bool));
    let no = b.build_expr(&expr(Expr::Literal(Literal::Bool(false)), 1, Type::Bool));
    let c = b.build_expr(&expr(Expr::Literal(Literal::Char(b'A')), 1, i32_type()));
    let n = b.build_expr(&number(u64::MAX, 1));
    let e = b.build_expr(&expr(Expr::Error, 1, Type::Error));
    assert_eq!(yes, RValue::Temp(Value::Int(1)));
    assert_eq!(no, RValue::Temp(Value::Int(0)));
    assert_eq!(c, RValue::Temp(Value::Int(65)));
    assert_eq!(n, RValue::Temp(Value::Int(u64::MAX)));
    assert_eq!(e, RValue::Temp(Value::Error));
    let (f, _) = close(b);
    assert_eq!(f.blocks[0].ops, vec![]);
}

#[test]
fn name_is_variable_or_global() {
    let mut b = open_builder();
    assert_eq!(b.build_expr(&name(2, 1, i32_type())), RValue::Var(Reg(1)));
    let global = expr(
        Expr::Name(Spanned::new(Symbol(9), at(1)), vec![Spanned::new(i32_type(), at(1))]),
        1,
        i32_type(),
    );
    assert_eq!(b.build_expr(&global), RValue::Temp(Value::Symbol(Symbol(9), vec![i32_type()])));
    assert_eq!(b.lookup(Symbol(2)), Some(Reg(1)));
    assert_eq!(b.lookup(Symbol(9)), None);
}

#[test]
fn operator_without_opcode_still_lowers_and_drops_its_operands() {
    // f() + g() at type bool; -f() at type bool
    let sum = binary(
        expr(Expr::Call(name(50, 1, Type::Bool), vec![]), 1, Type::Bool),
        BinaryOp::Add,
        expr(Expr::Call(name(51, 1, Type::Bool), vec![]), 1, Type::Bool),
        1,
        Type::Bool,
    );
    let negated = unary(
        UnaryOp::Minus,
        expr(Expr::Call(name(52, 2, Type::Bool), vec![]), 2, Type::Bool),
        2,
        Type::Bool,
    );
    let mut b = open_builder();
    assert_eq!(b.build_expr(&sum), RValue::Temp(Value::Error));
    assert_eq!(b.build_expr(&negated), RValue::Temp(Value::Error));
    let (f, reports) = close(b);
    assert!(reports.is_empty());
    assert_eq!(
        values(&f.blocks[0].ops),
        vec![
            &Instruction::Call(Reg(3), Symbol(50), vec![], vec![]),
            &Instruction::Call(Reg(4), Symbol(51), vec![], vec![]),
            &Instruction::Drop(Reg(3)),
            &Instruction::Drop(Reg(4)),
            &Instruction::Call(Reg(5), Symbol(52), vec![], vec![]),
            &Instruction::Drop(Reg(5)),
        ]
    );
}

#[test]
fn unary_operators_with_an_opcode() {
    let mut b = open_builder();
    b.build_expr(&unary(UnaryOp::Minus, name(1, 1, i32_type()), 1, i32_type()));
    b.build_expr(&unary(UnaryOp::Not, name(3, 1, Type::Bool), 1, Type::Bool));
    b.build_expr(&unary(UnaryOp::Deref, name(2, 1, i32_type()), 1, i32_type()));
    let (f, _) = close(b);
    assert_eq!(
        values(&f.blocks[0].ops),
        vec![
            &Instruction::UnaryOp(
                Reg(3),
                UnaryOpcode::Negate(Signedness::Signed, Size::Bit32),
                Value::Reg(Reg(0))
            ),
            &Instruction::UnaryOp(Reg(4), UnaryOpcode::Not, Value::Reg(Reg(2))),
            &Instruction::UnaryOp(Reg(5), UnaryOpcode::DerefLoad, Value::Reg(Reg(1))),
        ]
    );
}

#[test]
fn and_evaluates_right_side_only_if_left_is_true() {
    // c and f()
    let right = expr(Expr::Call(name(50, 1, Type::Bool), vec![]), 1, Type::Bool);
    let both = binary(name(3, 1, Type::Bool), BinaryOp::And, right, 1, Type::Bool);
    let mut b = open_builder();
    assert_eq!(b.build_expr(&both), RValue::Temp(Value::Reg(Reg(3))));
    let (f, _) = close(b);
    assert_eq!(values(&f.blocks[0].ops), vec![&Instruction::Assign(Reg(3), Value::Reg(Reg(2)))]);
    assert_eq!(f.blocks[0].end, BlockEnd::Branch(Value::Reg(Reg(3)), BlockId(1), BlockId(2)));
    assert_eq!(f.blocks[0].weak_link, Some(BlockId(2)));
    assert_eq!(
        values(&f.blocks[1].ops),
        vec![
            &Instruction::Call(Reg(4), Symbol(50), vec![], vec![]),
            &Instruction::Assign(Reg(3), Value::Reg(Reg(4))),
            &Instruction::Drop(Reg(4)),
        ]
    );
    assert_eq!(f.blocks[1].end, BlockEnd::Jump(BlockId(2)));
    assert_eq!(f.blocks[2].ops, vec![]);
}

#[test]
fn or_evaluates_right_side_only_if_left_is_false() {
    // (x == y) or c
    let left = binary(name(1, 1, i32_type()), BinaryOp::Equal, name(2, 1, i32_type()), 1, Type::Bool);
    let either = binary(left, BinaryOp::Or, name(3, 1, Type::Bool), 1, Type::Bool);
    let mut b = open_builder();
    assert_eq!(b.build_expr(&either), RValue::Temp(Value::Reg(Reg(4))));
    let (f, _) = close(b);
    assert_eq!(
        values(&f.blocks[0].ops),
        vec![
            &Instruction::BinaryOp(Reg(3), Opcode::Eq, Value::Reg(Reg(0)), Value::Reg(Reg(1))),
            &Instruction::Assign(Reg(4), Value::Reg(Reg(3))),
            &Instruction::Drop(Reg(3)),
        ]
    );
    assert_eq!(f.blocks[0].end, BlockEnd::Branch(Value::Reg(Reg(4)), BlockId(2), BlockId(1)));
    assert_eq!(values(&f.blocks[1].ops), vec![&Instruction::Assign(Reg(4), Value::Reg(Reg(2)))]);
    assert_eq!(f.blocks[1].end, BlockEnd::Jump(BlockId(2)));
}

#[test]
fn if_without_else_drops_the_condition_on_both_paths() {
    // if (x < y) { return x; }
    let cond = binary(name(1, 1, i32_type()), BinaryOp::Less, name(2, 1, i32_type()), 1, Type::Bool);
    let then = boxed(Statement::Return(name(1, 2, i32_type())), 2);
    let mut b = open_builder();
    b.build_statement(&stmt(Statement::If(cond, then, None), 1));
    let (f, _) = close(b);
    assert_eq!(f.blocks[0].end, BlockEnd::Branch(Value::Reg(Reg(3)), BlockId(1), BlockId(2)));
    assert_eq!(f.blocks[0].weak_link, Some(BlockId(2)));
    assert_eq!(values(&f.blocks[1].ops), vec![&Instruction::Drop(Reg(3))]);
    assert_eq!(f.blocks[1].end, BlockEnd::Return(Value::Reg(Reg(0))));
    assert_eq!(f.blocks[3].end, BlockEnd::Jump(BlockId(2)));
    assert_eq!(values(&f.blocks[2].ops), vec![&Instruction::Drop(Reg(3))]);
}

#[test]
fn if_with_else_gives_each_arm_a_block() {
    // if (c) x = 1; else x = 2;
    let one = binary(name(1, 2, i32_type()), BinaryOp::Assign, number(1, 2), 2, i32_type());
    let two = binary(name(1, 3, i32_type()), BinaryOp::Assign, number(2, 3), 3, i32_type());
    let s = Statement::If(
        name(3, 1, Type::Bool),
        boxed(Statement::Expr(one), 2),
        Some(boxed(Statement::Expr(two), 3)),
    );
    let mut b = open_builder();
    b.build_statement(&stmt(s, 1));
    let (f, _) = close(b);
    assert_eq!(f.blocks[0].end, BlockEnd::Branch(Value::Reg(Reg(2)), BlockId(1), BlockId(2)));
    assert_eq!(f.blocks[0].weak_link, Some(BlockId(3)));
    assert_eq!(
        values(&f.blocks[1].ops),
        vec![&Instruction::FieldStore(Reg(0), vec![], Value::Int(1))]
    );
    assert_eq!(
        values(&f.blocks[2].ops),
        vec![&Instruction::FieldStore(Reg(0), vec![], Value::Int(2))]
    );
    assert_eq!(f.blocks[1].end, BlockEnd::Jump(BlockId(3)));
    assert_eq!(f.blocks[2].end, BlockEnd::Jump(BlockId(3)));
    assert_eq!(f.blocks[1].weak_link, Some(BlockId(3)));
    assert_eq!(f.blocks[3].end, BlockEnd::Error);
}

#[test]
fn let_evaluates_before_it_rebinds_a_shadowed_name() {
    // let x = x + 1;   (x is in register 0)
    let sum = binary(name(1, 1, i32_type()), BinaryOp::Add, number(1, 1), 1, i32_type());
    let s = Statement::Let(Spanned::new(Symbol(1), at(1)), Spanned::new(i32_type(), at(1)), sum);
    let mut b = open_builder();
    b.build_statement(&stmt(s, 1));
    assert_eq!(b.lookup(Symbol(1)), Some(Reg(4)));
    let (f, _) = close(b);
    assert_eq!(
        values(&f.blocks[0].ops),
        vec![
            &Instruction::BinaryOp(
                Reg(3),
                Opcode::Add(Signedness::Signed, Size::Bit32),
                Value::Reg(Reg(0)),
                Value::Int(1)
            ),
            &Instruction::Assign(Reg(4), Value::Reg(Reg(3))),
            &Instruction::Drop(Reg(3)),
        ]
    );
}

#[test]
fn function_without_body_is_one_empty_block() {
    let f = function(10, vec![param(1, i32_type())], None);
    let (g, reports) = lower(&f);
    assert!(reports.is_empty());
    assert_eq!(g.start_block, BlockId(0));
    assert_eq!(g.registers, vec![i32_type()]);
    assert_eq!(g.blocks, vec![Block { ops: vec![], end: BlockEnd::Error, weak_link: None }]);
}

#[test]
fn function_that_falls_off_its_end_closes_with_error() {
    let body = Statement::Expr(name(1, 1, i32_type()));
    let (g, _) = lower(&function(10, vec![param(1, i32_type())], Some(stmt(body, 1))));
    assert_eq!(g.blocks.len(), 1);
    assert_eq!(g.blocks[0].end, BlockEnd::Error);
}

#[test]
fn program_keeps_structs_and_functions_by_symbol() {
    let point = Struct {
        name: Symbol(20),
        type_params: vec![Symbol(21)],
        fields: vec![param(22, i32_type()), param(23, Type::Pointer(Rc::new(Type::Bool)))],
    };
    let broken = function(11, vec![], Some(stmt(Statement::Break, 8)));
    let shadowed = function(10, vec![], None);
    let program = Program {
        structs: vec![point],
        functions: vec![shadowed, broken, add_one_function()],
    };
    assert!(program.is_lowerable());
    let mut ctx = CompileCtx::new();
    let out = build_cfg(&program, &mut ctx);
    assert_eq!(out.functions.len(), 2);
    assert_eq!(out.structs.len(), 1);
    assert_eq!(out.structs[&20], program.structs[0]);
    // of two functions with one symbol the later one stays
    assert_eq!(out.functions[&10].registers.len(), 3);
    assert_eq!(out.functions[&11].blocks.len(), 1);
    assert_eq!(ctx.diagnostics, vec![Diagnostic { problem: Problem::BreakOutsideLoop, span: at(8) }]);
}

#[test]
fn string_literal_and_unary_plus_are_not_lowerable_as_values() {
    let text = expr(Expr::Literal(Literal::Str(vec![104, 105])), 1, i32_type());
    assert!(!text.is_lowerable_value());
    assert!(text.is_lowerable_place());
    let plus = unary(UnaryOp::Plus, name(1, 1, i32_type()), 1, i32_type());
    assert!(!plus.is_lowerable_value());
    assert!(plus.is_lowerable_place());
    let nested = call(name(1, 1, i32_type()), vec![number(1, 1), plus], 1);
    assert!(!nested.is_lowerable_value());
    let f = function(10, vec![], Some(stmt(Statement::Block(vec![stmt(Statement::Expr(nested), 1)]), 1)));
    assert!(!f.is_lowerable());
    assert!(!Program { structs: vec![], functions: vec![add_one_function(), f] }.is_lowerable());
}

#[test]
fn what_is_only_assigned_to_is_not_evaluated() {
    // "hi" = 1 is reported, not rejected
    let text = expr(Expr::Literal(Literal::Str(vec![104, 105])), 1, i32_type());
    let assign = binary(text, BinaryOp::Assign, number(1, 1), 1, i32_type());
    assert!(assign.is_lowerable_value());
    let through = unary(
        UnaryOp::Deref,
        unary(UnaryOp::Plus, name(1, 1, i32_type()), 1, i32_type()),
        1,
        i32_type(),
    );
    assert!(!through.is_lowerable_place());
    let mut b = open_builder();
    b.build_expr(&assign);
    let (_, reports) = close(b);
    assert_eq!(reports, vec![Diagnostic { problem: Problem::InvalidLvalue, span: at(1) }]);
}

#[test]
fn clone_of_type_shares_its_arguments() {
    let args: Rc<[Type]> = Rc::from(vec![i32_type(), Type::Bool]);
    let to: Rc<Type> = Rc::new(Type::Var(plank_frontend::typed::TypeVar(3)));
    let t = Type::Function(args.clone(), to.clone());
    let copy = t.clone();
    assert_eq!(copy, t);
    match copy {
        Type::Function(a, b) => {
            assert!(Rc::ptr_eq(&a, &args));
            assert!(Rc::ptr_eq(&b, &to));
        }
        _ => panic!("clone changed the variant"),
    }
    assert_eq!(Rc::strong_count(&args), 2);
    let concrete = Type::Concrete(Symbol(5), args.clone());
    assert_eq!(concrete.clone(), concrete);
    assert_eq!(Type::Pointer(to.clone()).clone(), Type::Pointer(to));
}
