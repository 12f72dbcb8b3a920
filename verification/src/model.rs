//! The lowering as mathematics.
//!
//! [`BuilderView`] is the state of a builder with sequences and maps in place
//! of vectors and hash maps. Each step of the builder is a function from
//! state to state here, and the lowering of an expression or a statement is
//! their composition along the tree. The executable builder is proved to
//! compute exactly these functions.
use crate::cfg::{
    ops_within, BlockEndView, BlockId, BlockView, FunctionView, InstructionView, Reg,
    UnaryOpView, ValueView,
};
use crate::diagnostics::{Diagnostic, Problem};
use crate::operand::{LValueView, RValueView};
use crate::position::{Span, Spanned};
use crate::select::{binary_opcode, unary_opcode};
use crate::typed::{
    BinaryOp, Expr, Function, Statement, Struct, StructView, Symbol, Type, TypedExpr, UnaryOp, Var,
};
use vstd::prelude::*;

verus! {

/// An enclosing loop: `continue` jumps to `start`, `break` to `after`.
#[derive(Clone, Copy, Debug, PartialEq, Eq, Structural)]
pub struct LoopDescr {
    pub start: BlockId,
    pub after: BlockId,
}

/// The state of a builder.
pub struct BuilderView {
    /// The type of each register allocated so far.
    pub registers: Seq<Type>,
    /// Every block allocated so far; `None` until the block is closed.
    pub blocks: Seq<Option<BlockView>>,
    /// The enclosing loops, innermost last.
    pub loops: Seq<LoopDescr>,
    /// The register that holds each variable in scope, by the number of its symbol.
    pub vars: Map<u32, Reg>,
    /// The block under construction.
    pub current: Option<BlockId>,
    /// The instructions of the block under construction.
    pub ops: Seq<Spanned<InstructionView>>,
    /// The reports made so far.
    pub diagnostics: Seq<Diagnostic>,
}

/// The operands that a list of values puts into a call.
pub open spec fn as_values(args: Seq<RValueView>) -> Seq<ValueView> {
    args.map_values(|a: RValueView| a.as_value())
}

/// The types of a list of spanned types.
pub open spec fn plain_types(types: Seq<Spanned<Type>>) -> Seq<Type> {
    types.map_values(|t: Spanned<Type>| t.value)
}

/// The indices of the blocks that are neither closed nor under construction.
pub open spec fn waiting(blocks: Seq<Option<BlockView>>, current: Option<BlockId>) -> Set<int> {
    Set::new(
        |i: int| 0 <= i < blocks.len() && blocks[i] is None && current != Some(BlockId(i as usize)),
    )
}

impl BuilderView {
    /// The state before anything is built.
    pub open spec fn fresh() -> BuilderView {
        BuilderView {
            registers: Seq::empty(),
            blocks: Seq::empty(),
            loops: Seq::empty(),
            vars: Map::empty(),
            current: None,
            ops: Seq::empty(),
            diagnostics: Seq::empty(),
        }
    }

    /// Allocates the next register, of type `typ`.
    pub open spec fn new_register(self, typ: Type) -> (BuilderView, Reg) {
        (
            BuilderView { registers: self.registers.push(typ), ..self },
            Reg(self.registers.len() as usize),
        )
    }

    /// Allocates the next register and makes it the register of `symbol`.
    pub open spec fn new_var_register(self, symbol: Symbol, typ: Type) -> (BuilderView, Reg) {
        let (next, reg) = self.new_register(typ);
        (BuilderView { vars: next.vars.insert(symbol.0, reg), ..next }, reg)
    }

    /// Allocates the next block, not yet opened.
    pub open spec fn new_block(self) -> (BuilderView, BlockId) {
        (BuilderView { blocks: self.blocks.push(None), ..self }, BlockId(self.blocks.len() as usize))
    }

    /// Appends an instruction to the block under construction.
    pub open spec fn emit(self, op: InstructionView, span: Span) -> BuilderView {
        BuilderView { ops: self.ops.push(Spanned { value: op, span }), ..self }
    }

    /// Drops the register that `value` owns, if it owns one.
    pub open spec fn drop_value(self, value: RValueView, span: Span) -> BuilderView {
        match value.owned() {
            Some(r) => self.emit(InstructionView::Drop(r), span),
            None => self,
        }
    }

    /// Records a report.
    pub open spec fn report(self, problem: Problem, span: Span) -> BuilderView {
        BuilderView { diagnostics: self.diagnostics.push(Diagnostic { problem, span }), ..self }
    }

    /// Opens block `id`, with no instruction yet.
    pub open spec fn start_block(self, id: BlockId) -> BuilderView {
        BuilderView { current: Some(id), ops: Seq::empty(), ..self }
    }

    /// Closes the block under construction with the terminator `end`. Where
    /// no allocated block is under construction, nothing changes.
    pub open spec fn end_block(self, end: BlockEndView, weak_link: Option<BlockId>) -> BuilderView {
        match self.current {
            Some(id) if id.0 < self.blocks.len() => BuilderView {
                blocks: self.blocks.update(
                    id.0 as int,
                    Some(BlockView { ops: self.ops, end, weak_link }),
                ),
                current: None,
                ops: Seq::empty(),
                ..self
            },
            _ => self,
        }
    }

    /// Enters a loop.
    pub open spec fn push_loop(self, start: BlockId, after: BlockId) -> BuilderView {
        BuilderView { loops: self.loops.push(LoopDescr { start, after }), ..self }
    }

    /// Leaves the innermost loop.
    pub open spec fn pop_loop(self) -> BuilderView {
        BuilderView { loops: self.loops.drop_last(), ..self }
    }

    /// Stores `value` to the place `target`: one store instruction whatever
    /// the length of the field path. No place is reported; a place in error
    /// is passed over.
    pub open spec fn emit_store(self, target: LValueView, span: Span, value: ValueView) -> BuilderView {
        match target {
            LValueView::Invalid => self.report(Problem::InvalidLvalue, span),
            LValueView::Error => self,
            LValueView::Deref(ptr, path) => self.emit(
                InstructionView::DerefStore(ptr.as_value(), path, value),
                span,
            ).drop_value(ptr, span),
            LValueView::Reg(reg, path) => self.emit(
                InstructionView::FieldStore(reg, path, value),
                span,
            ),
        }
    }

    /// Puts the address of the place `place` into `target`.
    pub open spec fn emit_take_address(self, target: Reg, span: Span, place: LValueView) -> BuilderView {
        match place {
            LValueView::Invalid => self.report(Problem::InvalidLvalue, span),
            LValueView::Error => self,
            LValueView::Deref(ptr, path) => self.emit(
                InstructionView::UnaryOp(target, UnaryOpView::OffsetAddress(path), ptr.as_value()),
                span,
            ).drop_value(ptr, span),
            LValueView::Reg(reg, path) => self.emit(
                InstructionView::TakeAddress(target, reg, path),
                span,
            ),
        }
    }

    /// Lowers `e` for its value.
    pub open spec fn lower_expr(self, e: TypedExpr) -> (BuilderView, RValueView)
        decreases e, 1nat,
    {
        match *e.expr {
            Expr::Binary(lhs, op, rhs) => match op.value {
                BinaryOp::Assign => {
                    let (s1, target) = self.lower_place(lhs);
                    let (s2, value) = s1.lower_expr(rhs);
                    (s2.emit_store(target, lhs.span, value.as_value()), value)
                },
                BinaryOp::And | BinaryOp::Or => self.lower_short_circuit(e),
                _ => {
                    let (s1, left) = self.lower_expr(lhs);
                    let (s2, right) = s1.lower_expr(rhs);
                    match binary_opcode(op.value, lhs.typ) {
                        Some(opcode) => {
                            let (s3, result) = s2.new_register(e.typ);
                            (
                                s3.emit(
                                    InstructionView::BinaryOp(
                                        result,
                                        opcode,
                                        left.as_value(),
                                        right.as_value(),
                                    ),
                                    e.span,
                                ).drop_value(left, e.span).drop_value(right, e.span),
                                RValueView::Temp(ValueView::Reg(result)),
                            )
                        },
                        None => (
                            s2.drop_value(left, e.span).drop_value(right, e.span),
                            RValueView::Temp(ValueView::Error),
                        ),
                    }
                },
            },
            Expr::Unary(op, operand) => match op.value {
                UnaryOp::AddressOf => {
                    let (s1, place) = self.lower_place(operand);
                    let (s2, result) = s1.new_register(e.typ);
                    (
                        s2.emit_take_address(result, operand.span, place),
                        RValueView::Temp(ValueView::Reg(result)),
                    )
                },
                _ => {
                    let (s1, value) = self.lower_expr(operand);
                    match unary_opcode(op.value, operand.typ) {
                        Some(opcode) => {
                            let (s2, result) = s1.new_register(e.typ);
                            (
                                s2.emit(
                                    InstructionView::UnaryOp(result, opcode, value.as_value()),
                                    e.span,
                                ).drop_value(value, e.span),
                                RValueView::Temp(ValueView::Reg(result)),
                            )
                        },
                        None => (s1.drop_value(value, e.span), RValueView::Temp(ValueView::Error)),
                    }
                },
            },
            Expr::Call(callee, params) => {
                let (s1, f) = self.lower_expr(callee);
                let (s2, args) = s1.lower_args(params@, params@.len());
                let (s3, target) = s2.new_register(e.typ);
                let call = match f {
                    RValueView::Temp(ValueView::Symbol(name, types)) => InstructionView::Call(
                        target,
                        name,
                        types,
                        as_values(args),
                    ),
                    _ => InstructionView::VirtualCall(target, f.as_value(), as_values(args)),
                };
                (
                    s3.emit(call, e.span).drop_value(f, callee.span),
                    RValueView::Temp(ValueView::Reg(target)),
                )
            },
            Expr::Field(base, index) => {
                let (s1, value) = self.lower_expr(base);
                let (s2, target) = s1.new_register(e.typ);
                (
                    s2.emit(
                        InstructionView::UnaryOp(
                            target,
                            UnaryOpView::FieldLoad(seq![index.value]),
                            value.as_value(),
                        ),
                        e.span,
                    ).drop_value(value, e.span),
                    RValueView::Temp(ValueView::Reg(target)),
                )
            },
            Expr::Name(name, type_args) => if self.vars.contains_key(name.value.0) {
                (self, RValueView::Var(self.vars[name.value.0]))
            } else {
                (
                    self,
                    RValueView::Temp(ValueView::Symbol(name.value, plain_types(type_args@))),
                )
            },
            Expr::Literal(literal) => match literal.constant() {
                Some(n) => (self, RValueView::Temp(ValueView::Int(n))),
                None => (self, RValueView::Temp(ValueView::Error)),
            },
            Expr::Error => (self, RValueView::Temp(ValueView::Error)),
        }
    }

    /// Lowers `lhs and rhs` or `lhs or rhs`, which evaluate `rhs` only where
    /// `lhs` does not decide.
    ///
    /// The result register takes the value of `lhs`, and the block branches
    /// on it: for `and` to the evaluation of `rhs` if it is true, for `or` if
    /// it is false; else straight to the block after, where the register
    /// still holds the value of `lhs`. The block that evaluates `rhs` puts
    /// its value into the result register and jumps to the block after.
    pub open spec fn lower_short_circuit(self, e: TypedExpr) -> (BuilderView, RValueView)
        decreases e, 0nat,
    {
        match *e.expr {
            Expr::Binary(lhs, op, rhs) => if op.value == BinaryOp::And || op.value == BinaryOp::Or {
                let (s1, left) = self.lower_expr(lhs);
                let (s2, result) = s1.new_register(e.typ);
                let s3 = s2.emit(InstructionView::Assign(result, left.as_value()), e.span).drop_value(
                    left,
                    e.span,
                );
                let (s4, more) = s3.new_block();
                let (s5, after) = s4.new_block();
                let branch = if op.value == BinaryOp::And {
                    BlockEndView::Branch(ValueView::Reg(result), more, after)
                } else {
                    BlockEndView::Branch(ValueView::Reg(result), after, more)
                };
                let s6 = s5.end_block(branch, Some(after)).start_block(more);
                let (s7, right) = s6.lower_expr(rhs);
                let s8 = s7.emit(InstructionView::Assign(result, right.as_value()), e.span).drop_value(
                    right,
                    e.span,
                ).end_block(BlockEndView::Jump(after), Some(after)).start_block(after);
                (s8, RValueView::Temp(ValueView::Reg(result)))
            } else {
                (self, RValueView::Temp(ValueView::Error))
            },
            _ => (self, RValueView::Temp(ValueView::Error)),
        }
    }

    /// Lowers the first `n` of `args` for their values, from left to right.
    pub open spec fn lower_args(self, args: Seq<TypedExpr>, n: nat) -> (BuilderView, Seq<RValueView>)
        decreases args, n,
    {
        if 0 < n <= args.len() {
            let (s1, values) = self.lower_args(args, (n - 1) as nat);
            let (s2, value) = s1.lower_expr(args[n - 1]);
            (s2, values.push(value))
        } else {
            (self, Seq::empty())
        }
    }

    /// Lowers `e` for the place it denotes.
    ///
    /// A chain of field accesses becomes one place: the place of its
    /// innermost base, with the indices of the chain as its path, outermost
    /// access last.
    pub open spec fn lower_place(self, e: TypedExpr) -> (BuilderView, LValueView)
        decreases e, 0nat,
    {
        match *e.expr {
            Expr::Binary(_, _, _) => (self, LValueView::Invalid),
            Expr::Call(_, _) => (self, LValueView::Invalid),
            Expr::Literal(_) => (self, LValueView::Invalid),
            Expr::Error => (self, LValueView::Error),
            Expr::Field(base, index) => {
                let (s1, place) = self.lower_place(base);
                (s1, place.add_field(index.value))
            },
            Expr::Name(name, _) => if self.vars.contains_key(name.value.0) {
                (self, LValueView::Reg(self.vars[name.value.0], Seq::empty()))
            } else {
                (self, LValueView::Invalid)
            },
            Expr::Unary(op, operand) => if op.value == UnaryOp::Deref {
                let (s1, ptr) = self.lower_expr(operand);
                (s1, LValueView::Deref(ptr, Seq::empty()))
            } else {
                (self, LValueView::Invalid)
            },
        }
    }

    /// Closes the block under construction with `end` and goes on in a fresh
    /// block, which nothing jumps to: the weak link of the closed block names it.
    pub open spec fn leave(self, end: BlockEndView) -> BuilderView {
        let (s1, fresh) = self.new_block();
        s1.end_block(end, Some(fresh)).start_block(fresh)
    }

    /// Lowers a statement.
    pub open spec fn lower_statement(self, s: Spanned<Statement>) -> BuilderView
        decreases s, 0nat,
    {
        match s.value {
            Statement::Block(statements) => self.lower_statements(statements@, statements@.len()),
            Statement::Break => if self.loops.len() > 0 {
                self.leave(BlockEndView::Jump(self.loops.last().after))
            } else {
                self.report(Problem::BreakOutsideLoop, s.span)
            },
            Statement::Continue => if self.loops.len() > 0 {
                self.leave(BlockEndView::Jump(self.loops.last().start))
            } else {
                self.report(Problem::ContinueOutsideLoop, s.span)
            },
            Statement::Expr(e) => {
                let (s1, value) = self.lower_expr(e);
                s1.drop_value(value, e.span)
            },
            Statement::If(cond, then, Some(otherwise)) => {
                let (s1, c) = self.lower_expr(cond);
                let (s2, body) = s1.new_block();
                let (s3, else_body) = s2.new_block();
                let (s4, after) = s3.new_block();
                let s5 = s4.end_block(
                    BlockEndView::Branch(c.as_value(), body, else_body),
                    Some(after),
                ).start_block(body).drop_value(c, cond.span);
                let s6 = s5.lower_statement(*then).end_block(
                    BlockEndView::Jump(after),
                    Some(after),
                ).start_block(else_body).drop_value(c, cond.span);
                s6.lower_statement(*otherwise).end_block(
                    BlockEndView::Jump(after),
                    Some(after),
                ).start_block(after)
            },
            Statement::If(cond, then, None) => {
                let (s1, c) = self.lower_expr(cond);
                let (s2, body) = s1.new_block();
                let (s3, after) = s2.new_block();
                let s4 = s3.end_block(
                    BlockEndView::Branch(c.as_value(), body, after),
                    Some(after),
                ).start_block(body).drop_value(c, cond.span);
                s4.lower_statement(*then).end_block(
                    BlockEndView::Jump(after),
                    Some(after),
                ).start_block(after).drop_value(c, cond.span)
            },
            Statement::Let(name, typ, value) => {
                let (s1, v) = self.lower_expr(value);
                let (s2, reg) = s1.new_var_register(name.value, typ.value);
                s2.emit(InstructionView::Assign(reg, v.as_value()), s.span).drop_value(v, s.span)
            },
            Statement::Loop(body) => {
                let (s1, start) = self.new_block();
                let (s2, after) = s1.new_block();
                let s3 = s2.push_loop(start, after).end_block(
                    BlockEndView::Jump(start),
                    Some(start),
                ).start_block(start);
                s3.lower_statement(*body).end_block(
                    BlockEndView::Jump(start),
                    Some(after),
                ).pop_loop().start_block(after)
            },
            Statement::Return(e) => {
                let (s1, value) = self.lower_expr(e);
                s1.leave(BlockEndView::Return(value.as_value()))
            },
            Statement::While(cond, body) => {
                let (s1, start) = self.new_block();
                let (s2, body_start) = s1.new_block();
                let (s3, after) = s2.new_block();
                let s4 = s3.push_loop(start, after).end_block(
                    BlockEndView::Jump(start),
                    Some(start),
                ).start_block(start);
                let (s5, c) = s4.lower_expr(cond);
                let s6 = s5.end_block(
                    BlockEndView::Branch(c.as_value(), body_start, after),
                    Some(after),
                ).start_block(body_start).drop_value(c, cond.span);
                s6.lower_statement(*body).end_block(
                    BlockEndView::Jump(start),
                    Some(after),
                ).pop_loop().start_block(after).drop_value(c, cond.span)
            },
        }
    }

    /// Lowers the first `n` of `statements` in order, each after a marker of
    /// where it begins.
    pub open spec fn lower_statements(self, statements: Seq<Spanned<Statement>>, n: nat) -> BuilderView
        decreases statements, n,
    {
        if 0 < n <= statements.len() {
            self.lower_statements(statements, (n - 1) as nat).emit(
                InstructionView::StartStatement,
                statements[n - 1].span,
            ).lower_statement(statements[n - 1])
        } else {
            self
        }
    }

    /// Gives each of the first `n` of `params` a register of its own, in order.
    pub open spec fn bind_params(self, params: Seq<Var>, n: nat) -> BuilderView
        decreases n,
    {
        if 0 < n <= params.len() {
            self.bind_params(params, (n - 1) as nat).new_var_register(
                params[n - 1].name,
                params[n - 1].typ,
            ).0
        } else {
            self
        }
    }

    /// Lowers the whole of `f`, and says which block is its entry.
    ///
    /// Each parameter takes a register, in order; then the entry block is
    /// allocated and the body lowered into it. The block that is under
    /// construction when the body ends gets the error terminator; a function
    /// without a body is that one block, empty.
    pub open spec fn lower_function(self, f: Function) -> (BuilderView, BlockId) {
        let s0 = self.bind_params(f.params@, f.params@.len());
        let (s1, entry) = s0.new_block();
        let s2 = s1.start_block(entry);
        let s3 = match f.body {
            Some(body) => s2.lower_statement(body),
            None => s2,
        };
        (s3.end_block(BlockEndView::Error, None), entry)
    }

    /// The blocks as a finished function holds them.
    pub open spec fn closed_blocks(self) -> Seq<BlockView> {
        self.blocks.map_values(|b: Option<BlockView>| b->0)
    }

    /// The blocks that are allocated and neither closed nor under construction.
    pub open spec fn unopened(self) -> Set<int> {
        waiting(self.blocks, self.current)
    }

    /// What every lowering keeps: a block is under construction afterwards,
    /// the enclosing loops are the same, the blocks that wait to be opened
    /// are the same, and nothing allocated is taken back.
    pub open spec fn carries_on(self, next: BuilderView) -> bool {
        &&& next.current is Some
        &&& next.loops == self.loops
        &&& next.unopened() =~= self.unopened()
        &&& self.registers.len() <= next.registers.len()
        &&& self.blocks.len() <= next.blocks.len()
    }

    /// The state is consistent: the tables fit the machine, the block under
    /// construction is allocated and not closed, and every name is in range.
    pub open spec fn inv(self) -> bool {
        &&& self.registers.len() <= usize::MAX
        &&& self.blocks.len() <= usize::MAX
        &&& self.current matches Some(id) ==> id.0 < self.blocks.len() && self.blocks[id.0 as int]
            is None
        &&& self.names_in_range()
    }

    /// Every register and every block that a closed block, an instruction
    /// of the block under construction, a variable or a loop names is
    /// allocated.
    #[verifier::opaque]
    pub open spec fn names_in_range(self) -> bool {
        &&& forall|i: int|
            0 <= i < self.blocks.len() ==> ((#[trigger] self.blocks[i]) matches Some(b)
                ==> b.within(self.registers.len(), self.blocks.len()))
        &&& ops_within(self.ops, self.registers.len())
        &&& forall|k: u32|
            self.vars.contains_key(k) ==> (#[trigger] self.vars[k]).0 < self.registers.len()
        &&& forall|l: int|
            0 <= l < self.loops.len() ==> (#[trigger] self.loops[l]).start.0 < self.blocks.len()
                && self.loops[l].after.0 < self.blocks.len()
    }
}

/// The graph that lowering `f` with a fresh builder produces.
pub open spec fn lowered(f: Function) -> FunctionView {
    let (end, entry) = BuilderView::fresh().lower_function(f);
    FunctionView {
        type_params: f.type_params@,
        registers: end.registers,
        blocks: end.closed_blocks(),
        start_block: entry,
    }
}

/// The reports that lowering `f` with a fresh builder makes, in order.
pub open spec fn reported(f: Function) -> Seq<Diagnostic> {
    BuilderView::fresh().lower_function(f).0.diagnostics
}

/// The graphs of the first `n` of `functions`, each under the number of its
/// symbol. Of two functions with one symbol the later one stays.
pub open spec fn lowered_functions(functions: Seq<Function>, n: nat) -> Map<u32, FunctionView>
    decreases n,
{
    if 0 < n <= functions.len() {
        lowered_functions(functions, (n - 1) as nat).insert(
            functions[n - 1].name.0,
            lowered(functions[n - 1]),
        )
    } else {
        Map::empty()
    }
}

/// The reports that lowering the first `n` of `functions` makes, function by function.
pub open spec fn reported_all(functions: Seq<Function>, n: nat) -> Seq<Diagnostic>
    decreases n,
{
    if 0 < n <= functions.len() {
        reported_all(functions, (n - 1) as nat) + reported(functions[n - 1])
    } else {
        Seq::empty()
    }
}

/// The first `n` of `structs`, each under the number of its symbol. Of two
/// structs with one symbol the later one stays.
pub open spec fn keyed_structs(structs: Seq<Struct>, n: nat) -> Map<u32, StructView>
    decreases n,
{
    if 0 < n <= structs.len() {
        keyed_structs(structs, (n - 1) as nat).insert(structs[n - 1].name.0, structs[n - 1]@)
    } else {
        Map::empty()
    }
}

} // verus!
