//! The control-flow graph: registers, instructions and basic blocks.
//!
//! A function's registers and blocks are tables: `Reg(i)` has the type
//! `registers[i]`, and `BlockId(i)` names `blocks[i]`. Each type that holds a
//! list has a view that holds the same data with sequences in place of
//! vectors; contracts speak of the views.
use crate::position::Spanned;
use crate::typed::{Signedness, Size, Struct, StructView, Symbol, Type};
use std::collections::HashMap;
use vstd::prelude::*;

verus! {

/// A register: a typed slot for a local or a temporary.
#[derive(Clone, Copy, Debug, PartialEq, Eq, PartialOrd, Ord, Hash, Structural)]
pub struct Reg(pub usize);

/// The name of a basic block.
#[derive(Clone, Copy, Debug, PartialEq, Eq, PartialOrd, Ord, Hash, Structural)]
pub struct BlockId(pub usize);

/// An operand of an instruction.
#[derive(Debug, PartialEq, Eq)]
pub enum Value {
    Int(u64),
    Reg(Reg),
    /// A global, with the type arguments it is used at.
    Symbol(Symbol, Vec<Type>),
    /// Stands for a value that could not be computed.
    Error,
}

pub enum ValueView {
    Int(u64),
    Reg(Reg),
    Symbol(Symbol, Seq<Type>),
    Error,
}

#[derive(Clone, Copy, Debug, PartialEq, Eq, Hash, Structural)]
pub enum BinaryOp {
    Add(Signedness, Size),
    Sub(Signedness, Size),
    Mul(Signedness, Size),
    Div(Signedness, Size),
    Mod(Signedness, Size),
    Less(Signedness, Size),
    LessEq(Signedness, Size),
    Greater(Signedness, Size),
    GreaterEq(Signedness, Size),
    Eq,
    Neq,
}

#[derive(Debug, PartialEq, Eq)]
pub enum UnaryOp {
    Negate(Signedness, Size),
    Not,
    DerefLoad,
    /// Loads the field reached by following these field indices.
    FieldLoad(Vec<usize>),
    /// The address of the field reached by following these field indices.
    OffsetAddress(Vec<usize>),
}

pub enum UnaryOpView {
    Negate(Signedness, Size),
    Not,
    DerefLoad,
    FieldLoad(Seq<usize>),
    OffsetAddress(Seq<usize>),
}

#[derive(Debug, PartialEq, Eq)]
pub enum Instruction {
    Assign(Reg, Value),
    BinaryOp(Reg, BinaryOp, Value, Value),
    UnaryOp(Reg, UnaryOp, Value),
    /// A call of a known global, with its type arguments and its arguments.
    Call(Reg, Symbol, Vec<Type>, Vec<Value>),
    /// A call through a computed value.
    VirtualCall(Reg, Value, Vec<Value>),
    /// Stores the last value through the pointer, at the field path.
    DerefStore(Value, Vec<usize>, Value),
    /// Stores the value into the register, at the field path.
    FieldStore(Reg, Vec<usize>, Value),
    /// Puts into the first register the address of the second, at the field path.
    TakeAddress(Reg, Reg, Vec<usize>),
    Drop(Reg),
    /// Marks the point where a statement of a block begins.
    StartStatement,
}

pub enum InstructionView {
    Assign(Reg, ValueView),
    BinaryOp(Reg, BinaryOp, ValueView, ValueView),
    UnaryOp(Reg, UnaryOpView, ValueView),
    Call(Reg, Symbol, Seq<Type>, Seq<ValueView>),
    VirtualCall(Reg, ValueView, Seq<ValueView>),
    DerefStore(ValueView, Seq<usize>, ValueView),
    FieldStore(Reg, Seq<usize>, ValueView),
    TakeAddress(Reg, Reg, Seq<usize>),
    Drop(Reg),
    StartStatement,
}

/// How a block hands control on.
#[derive(Debug, PartialEq, Eq)]
pub enum BlockEnd {
    Return(Value),
    Jump(BlockId),
    /// To the first block if the value is true, else to the second.
    Branch(Value, BlockId, BlockId),
    /// Closes a block that was left without a way on.
    Error,
}

pub enum BlockEndView {
    Return(ValueView),
    Jump(BlockId),
    Branch(ValueView, BlockId, BlockId),
    Error,
}

/// A basic block. The weak link is no edge of the graph: it names the block
/// that follows this one in the text.
#[derive(Debug, PartialEq, Eq)]
pub struct Block {
    pub ops: Vec<Spanned<Instruction>>,
    pub end: BlockEnd,
    pub weak_link: Option<BlockId>,
}

pub struct BlockView {
    pub ops: Seq<Spanned<InstructionView>>,
    pub end: BlockEndView,
    pub weak_link: Option<BlockId>,
}

#[derive(Debug, PartialEq, Eq)]
pub struct Function {
    pub type_params: Vec<Symbol>,
    pub registers: Vec<Type>,
    pub blocks: Vec<Block>,
    pub start_block: BlockId,
}

pub struct FunctionView {
    pub type_params: Seq<Symbol>,
    pub registers: Seq<Type>,
    pub blocks: Seq<BlockView>,
    pub start_block: BlockId,
}

/// The lowered program: structs and functions, each under the number of its symbol.
#[derive(Debug)]
pub struct Program {
    pub structs: HashMap<u32, Struct>,
    pub functions: HashMap<u32, Function>,
}

pub struct ProgramView {
    pub structs: Map<u32, StructView>,
    pub functions: Map<u32, FunctionView>,
}

pub open spec fn values_view(values: Seq<Value>) -> Seq<ValueView> {
    values.map_values(|v: Value| v@)
}

pub open spec fn op_view(op: Spanned<Instruction>) -> Spanned<InstructionView> {
    Spanned { value: op.value@, span: op.span }
}

pub open spec fn ops_view(ops: Seq<Spanned<Instruction>>) -> Seq<Spanned<InstructionView>> {
    ops.map_values(|op: Spanned<Instruction>| op_view(op))
}

impl View for Value {
    type V = ValueView;

    open spec fn view(&self) -> ValueView {
        match *self {
            Value::Int(n) => ValueView::Int(n),
            Value::Reg(r) => ValueView::Reg(r),
            Value::Symbol(name, types) => ValueView::Symbol(name, types@),
            Value::Error => ValueView::Error,
        }
    }
}

impl View for UnaryOp {
    type V = UnaryOpView;

    open spec fn view(&self) -> UnaryOpView {
        match *self {
            UnaryOp::Negate(sign, size) => UnaryOpView::Negate(sign, size),
            UnaryOp::Not => UnaryOpView::Not,
            UnaryOp::DerefLoad => UnaryOpView::DerefLoad,
            UnaryOp::FieldLoad(path) => UnaryOpView::FieldLoad(path@),
            UnaryOp::OffsetAddress(path) => UnaryOpView::OffsetAddress(path@),
        }
    }
}

impl View for Instruction {
    type V = InstructionView;

    open spec fn view(&self) -> InstructionView {
        match *self {
            Instruction::Assign(to, v) => InstructionView::Assign(to, v@),
            Instruction::BinaryOp(to, op, a, b) => InstructionView::BinaryOp(to, op, a@, b@),
            Instruction::UnaryOp(to, op, a) => InstructionView::UnaryOp(to, op@, a@),
            Instruction::Call(to, f, types, args) => InstructionView::Call(
                to,
                f,
                types@,
                values_view(args@),
            ),
            Instruction::VirtualCall(to, f, args) => InstructionView::VirtualCall(
                to,
                f@,
                values_view(args@),
            ),
            Instruction::DerefStore(ptr, path, v) => InstructionView::DerefStore(ptr@, path@, v@),
            Instruction::FieldStore(base, path, v) => InstructionView::FieldStore(base, path@, v@),
            Instruction::TakeAddress(to, base, path) => InstructionView::TakeAddress(
                to,
                base,
                path@,
            ),
            Instruction::Drop(r) => InstructionView::Drop(r),
            Instruction::StartStatement => InstructionView::StartStatement,
        }
    }
}

impl View for BlockEnd {
    type V = BlockEndView;

    open spec fn view(&self) -> BlockEndView {
        match *self {
            BlockEnd::Return(v) => BlockEndView::Return(v@),
            BlockEnd::Jump(to) => BlockEndView::Jump(to),
            BlockEnd::Branch(v, yes, no) => BlockEndView::Branch(v@, yes, no),
            BlockEnd::Error => BlockEndView::Error,
        }
    }
}

impl View for Block {
    type V = BlockView;

    open spec fn view(&self) -> BlockView {
        BlockView { ops: ops_view(self.ops@), end: self.end@, weak_link: self.weak_link }
    }
}

impl View for Function {
    type V = FunctionView;

    open spec fn view(&self) -> FunctionView {
        FunctionView {
            type_params: self.type_params@,
            registers: self.registers@,
            blocks: self.blocks@.map_values(|b: Block| b@),
            start_block: self.start_block,
        }
    }
}

impl View for Program {
    type V = ProgramView;

    open spec fn view(&self) -> ProgramView {
        ProgramView {
            structs: self.structs@.map_values(|s: Struct| s@),
            functions: self.functions@.map_values(|f: Function| f@),
        }
    }
}

impl ValueView {
    /// The value names no register beyond the first `registers`.
    pub open spec fn within(self, registers: nat) -> bool {
        self matches ValueView::Reg(r) ==> r.0 < registers
    }
}

/// Every value of the list names only registers among the first `registers`.
pub open spec fn values_within(values: Seq<ValueView>, registers: nat) -> bool {
    forall|i: int| 0 <= i < values.len() ==> (#[trigger] values[i]).within(registers)
}

impl InstructionView {
    /// Every register the instruction reads or writes is among the first `registers`.
    pub open spec fn within(self, registers: nat) -> bool {
        match self {
            InstructionView::Assign(to, v) => to.0 < registers && v.within(registers),
            InstructionView::BinaryOp(to, _, a, b) => {
                &&& to.0 < registers
                &&& a.within(registers)
                &&& b.within(registers)
            },
            InstructionView::UnaryOp(to, _, a) => to.0 < registers && a.within(registers),
            InstructionView::Call(to, _, _, args) => {
                &&& to.0 < registers
                &&& values_within(args, registers)
            },
            InstructionView::VirtualCall(to, f, args) => {
                &&& to.0 < registers
                &&& f.within(registers)
                &&& values_within(args, registers)
            },
            InstructionView::DerefStore(ptr, _, v) => ptr.within(registers) && v.within(registers),
            InstructionView::FieldStore(base, _, v) => base.0 < registers && v.within(registers),
            InstructionView::TakeAddress(to, base, _) => to.0 < registers && base.0 < registers,
            InstructionView::Drop(r) => r.0 < registers,
            InstructionView::StartStatement => true,
        }
    }
}

/// Every instruction of the list stays among the first `registers`.
pub open spec fn ops_within(ops: Seq<Spanned<InstructionView>>, registers: nat) -> bool {
    forall|i: int| 0 <= i < ops.len() ==> (#[trigger] ops[i]).value.within(registers)
}

impl BlockEndView {
    /// The blocks that control can pass to.
    pub open spec fn successors(self) -> Set<BlockId> {
        match self {
            BlockEndView::Return(_) => Set::empty(),
            BlockEndView::Jump(to) => set![to],
            BlockEndView::Branch(_, yes, no) => set![yes, no],
            BlockEndView::Error => Set::empty(),
        }
    }

    /// The value read stays among the first `registers`, and every successor
    /// among the first `blocks`.
    pub open spec fn within(self, registers: nat, blocks: nat) -> bool {
        match self {
            BlockEndView::Return(v) => v.within(registers),
            BlockEndView::Jump(to) => to.0 < blocks,
            BlockEndView::Branch(v, yes, no) => {
                &&& v.within(registers)
                &&& yes.0 < blocks
                &&& no.0 < blocks
            },
            BlockEndView::Error => true,
        }
    }
}

impl BlockView {
    /// Instructions, terminator and weak link name only registers among the
    /// first `registers` and blocks among the first `blocks`.
    pub open spec fn within(self, registers: nat, blocks: nat) -> bool {
        &&& ops_within(self.ops, registers)
        &&& self.end.within(registers, blocks)
        &&& self.weak_link matches Some(link) ==> link.0 < blocks
    }
}

impl FunctionView {
    /// The graph is closed: the entry block exists, and every register and
    /// every block that a block names is in the function's tables.
    pub open spec fn wf(self) -> bool {
        &&& self.start_block.0 < self.blocks.len()
        &&& forall|i: int|
            0 <= i < self.blocks.len() ==> (#[trigger] self.blocks[i]).within(
                self.registers.len(),
                self.blocks.len(),
            )
    }

    /// Control can pass from block `from` to block `to` in one step.
    pub open spec fn steps(self, from: BlockId, to: BlockId) -> bool {
        &&& from.0 < self.blocks.len()
        &&& self.blocks[from.0 as int].end.successors().contains(to)
    }

    /// `path` starts at the entry block, and each block hands on to the next.
    pub open spec fn is_path(self, path: Seq<BlockId>) -> bool {
        &&& path.len() > 0
        &&& path[0] == self.start_block
        &&& forall|i: int| 0 <= i < path.len() - 1 ==> self.steps(#[trigger] path[i], path[i + 1])
    }

    /// Control can reach block `id` from the entry block.
    pub open spec fn reachable(self, id: BlockId) -> bool {
        exists|path: Seq<BlockId>| #[trigger] self.is_path(path) && path.last() == id
    }
}

/// A block that stays within some tables stays within larger ones.
pub proof fn lemma_block_within_grows(
    block: BlockView,
    registers: nat,
    blocks: nat,
    more_registers: nat,
    more_blocks: nat,
)
    requires
        block.within(registers, blocks),
        registers <= more_registers,
        blocks <= more_blocks,
    ensures
        block.within(more_registers, more_blocks),
{
    lemma_ops_within_grow(block.ops, registers, more_registers);
}

/// Instructions that stay within some registers stay within more.
pub proof fn lemma_ops_within_grow(
    ops: Seq<Spanned<InstructionView>>,
    registers: nat,
    more_registers: nat,
)
    requires
        ops_within(ops, registers),
        registers <= more_registers,
    ensures
        ops_within(ops, more_registers),
{
    assert forall|i: int| 0 <= i < ops.len() implies (#[trigger] ops[i]).value.within(
        more_registers,
    ) by {
        lemma_instruction_within_grows(ops[i].value, registers, more_registers);
    }
}

/// An instruction that stays within some registers stays within more.
pub proof fn lemma_instruction_within_grows(
    op: InstructionView,
    registers: nat,
    more_registers: nat,
)
    requires
        op.within(registers),
        registers <= more_registers,
    ensures
        op.within(more_registers),
{
    match op {
        InstructionView::Call(_, _, _, args) => {
            assert forall|i: int| 0 <= i < args.len() implies (#[trigger] args[i]).within(
                more_registers,
            ) by {
                assert(args[i].within(registers));
            }
        },
        InstructionView::VirtualCall(_, _, args) => {
            assert forall|i: int| 0 <= i < args.len() implies (#[trigger] args[i]).within(
                more_registers,
            ) by {
                assert(args[i].within(registers));
            }
        },
        _ => {},
    }
}

/// Copies a list of types; the copies share what the types point to.
pub fn copy_types(types: &Vec<Type>) -> (copy: Vec<Type>)
    ensures
        copy@ == types@,
{
    let mut copy: Vec<Type> = Vec::new();
    let mut i: usize = 0;
    while i < types.len()
        invariant
            i <= types.len(),
            copy@ == types@.take(i as int),
        decreases types.len() - i,
    {
        copy.push(types[i].clone());
        assert(types@.take(i + 1) == types@.take(i as int).push(types@[i as int]));
        i = i + 1;
    }
    assert(types@.take(i as int) == types@);
    copy
}

impl Clone for Value {
    fn clone(&self) -> (r: Self)
        ensures
            r@ == self@,
    {
        match self {
            Value::Int(n) => Value::Int(*n),
            Value::Reg(r) => Value::Reg(*r),
            Value::Symbol(name, types) => Value::Symbol(*name, copy_types(types)),
            Value::Error => Value::Error,
        }
    }
}

} // verus!
