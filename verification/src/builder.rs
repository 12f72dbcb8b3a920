//! The builder: the state of one function's lowering, and its single steps.
//!
//! At most one block is under construction at a time. Opening a block while
//! one is open, or closing one while none is, is ruled out by the steps'
//! preconditions.
use crate::cfg::{
    lemma_block_within_grows, lemma_ops_within_grow, op_view, ops_view, Block, BlockEnd, BlockId,
    BlockView, Function, FunctionView, Instruction, Reg, UnaryOp, Value,
};
use crate::diagnostics::{Diagnostic, Problem};
use crate::model::{BuilderView, LoopDescr};
use crate::operand::{LValue, RValue};
use crate::position::{Span, Spanned};
use crate::typed::{Symbol, Type};
use std::collections::HashMap;
use vstd::prelude::*;

verus! {

/// The state of the lowering of one function.
///
/// Registers and blocks are numbered by their place in a table of their
/// own, so a builder hands out each number once.
pub struct Builder {
    registers: Vec<Type>,
    blocks: Vec<Option<Block>>,
    loops: Vec<LoopDescr>,
    var_registers: HashMap<u32, Reg>,
    current_block: Option<BlockId>,
    ops: Vec<Spanned<Instruction>>,
    diagnostics: Vec<Diagnostic>,
}

/// A block table entry as the model holds it.
pub open spec fn slot_view(slot: Option<Block>) -> Option<BlockView> {
    match slot {
        Some(block) => Some(block@),
        None => None,
    }
}

impl View for Builder {
    type V = BuilderView;

    closed spec fn view(&self) -> BuilderView {
        BuilderView {
            registers: self.registers@,
            blocks: self.blocks@.map_values(|slot: Option<Block>| slot_view(slot)),
            loops: self.loops@,
            vars: self.var_registers@,
            current: self.current_block,
            ops: ops_view(self.ops@),
            diagnostics: self.diagnostics@,
        }
    }
}

impl Builder {
    /// The builder's state is consistent.
    pub open spec fn wf(&self) -> bool {
        self@.inv()
    }

    /// A builder that has built nothing.
    pub fn new() -> (b: Builder)
        ensures
            b@ == BuilderView::fresh(),
            b.wf(),
    {
        proof {
            reveal(BuilderView::names_in_range);
        }
        let b = Builder {
            registers: Vec::new(),
            blocks: Vec::new(),
            loops: Vec::new(),
            var_registers: HashMap::new(),
            current_block: None,
            ops: Vec::new(),
            diagnostics: Vec::new(),
        };
        assert(b@.blocks =~= Seq::empty());
        assert(b@.ops =~= Seq::empty());
        b
    }

    /// Allocates a register of type `typ`.
    pub fn new_register(&mut self, typ: Type) -> (reg: Reg)
        requires
            old(self).wf(),
        ensures
            (final(self)@, reg) == old(self)@.new_register(typ),
            final(self).wf(),
            reg.0 == old(self)@.registers.len(),
    {
        proof {
            reveal(BuilderView::names_in_range);
        }
        let reg = Reg(self.registers.len());
        self.registers.push(typ);
        proof {
            assert(self.registers@.len() == self.registers.len());
            let before = old(self)@;
            let after = self@;
            assert forall|i: int| 0 <= i < after.blocks.len() implies ((
            #[trigger] after.blocks[i]) matches Some(b) ==> b.within(
                after.registers.len(),
                after.blocks.len(),
            )) by {
                if before.blocks[i] is Some {
                    lemma_block_within_grows(
                        before.blocks[i]->0,
                        before.registers.len(),
                        before.blocks.len(),
                        after.registers.len(),
                        after.blocks.len(),
                    );
                }
            }
            lemma_ops_within_grow(before.ops, before.registers.len(), after.registers.len());
        }
        reg
    }

    /// Allocates a register of type `typ` for the variable `symbol`, which
    /// from now on names this register.
    pub fn new_var_register(&mut self, symbol: Symbol, typ: Type) -> (reg: Reg)
        requires
            old(self).wf(),
        ensures
            (final(self)@, reg) == old(self)@.new_var_register(symbol, typ),
            final(self).wf(),
            reg.0 == old(self)@.registers.len(),
    {
        proof {
            reveal(BuilderView::names_in_range);
        }
        let reg = self.new_register(typ);
        self.var_registers.insert(symbol.0, reg);
        reg
    }

    /// The register that holds the variable `symbol`, if it is in scope.
    pub fn lookup(&self, symbol: Symbol) -> (found: Option<Reg>)
        requires
            self.wf(),
        ensures
            found == if self@.vars.contains_key(symbol.0) {
                Some(self@.vars[symbol.0])
            } else {
                None
            },
            found matches Some(reg) ==> reg.0 < self@.registers.len(),
    {
        proof {
            reveal(BuilderView::names_in_range);
        }
        match self.var_registers.get(&symbol.0) {
            Some(reg) => {
                assert(self@.vars.contains_key(symbol.0) && self@.vars[symbol.0] == *reg);
                Some(*reg)
            },
            None => None,
        }
    }

    /// Allocates a block. It is opened later, by [`Builder::start_block`].
    pub fn new_block(&mut self) -> (id: BlockId)
        requires
            old(self).wf(),
        ensures
            (final(self)@, id) == old(self)@.new_block(),
            final(self).wf(),
            final(self)@.unopened() == old(self)@.unopened().insert(id.0 as int),
            id.0 == old(self)@.blocks.len(),
    {
        proof {
            reveal(BuilderView::names_in_range);
        }
        let id = BlockId(self.blocks.len());
        self.blocks.push(None);
        proof {
            assert(self.blocks@.len() == self.blocks.len());
            let before = old(self)@;
            let after = self@;
            assert(after.blocks =~= before.blocks.push(None));
            assert(after.unopened() =~= before.unopened().insert(id.0 as int));
            assert forall|i: int| 0 <= i < after.blocks.len() implies ((
            #[trigger] after.blocks[i]) matches Some(b) ==> b.within(
                after.registers.len(),
                after.blocks.len(),
            )) by {
                if i < before.blocks.len() && before.blocks[i] is Some {
                    lemma_block_within_grows(
                        before.blocks[i]->0,
                        before.registers.len(),
                        before.blocks.len(),
                        after.registers.len(),
                        after.blocks.len(),
                    );
                }
            }
        }
        id
    }

    /// Appends an instruction to the block under construction.
    pub fn emit_instruction(&mut self, op: Instruction, span: Span)
        requires
            old(self).wf(),
            old(self)@.current is Some,
            op@.within(old(self)@.registers.len()),
        ensures
            final(self)@ == old(self)@.emit(op@, span),
            final(self).wf(),
    {
        proof {
            reveal(BuilderView::names_in_range);
        }
        self.ops.push(Spanned::new(op, span));
        proof {
            assert(self@.ops =~= old(self)@.ops.push(op_view(Spanned { value: op, span })));
        }
    }

    /// Drops the register of a temporary. A variable, and a temporary that
    /// is no register, need no drop.
    pub fn drop_value(&mut self, value: &RValue, span: Span)
        requires
            old(self).wf(),
            old(self)@.current is Some,
            value@.within(old(self)@.registers.len()),
        ensures
            final(self)@ == old(self)@.drop_value(value@, span),
            final(self).wf(),
    {
        match value {
            RValue::Temp(Value::Reg(reg)) => {
                self.emit_instruction(Instruction::Drop(*reg), span);
            },
            _ => {},
        }
    }

    /// Records a report.
    pub fn report(&mut self, problem: Problem, span: Span)
        requires
            old(self).wf(),
        ensures
            final(self)@ == old(self)@.report(problem, span),
            final(self).wf(),
    {
        proof {
            reveal(BuilderView::names_in_range);
        }
        self.diagnostics.push(Diagnostic { problem, span });
    }

    /// Whether a block is under construction.
    pub fn has_open_block(&self) -> (open: bool)
        ensures
            open == (self@.current is Some),
    {
        self.current_block.is_some()
    }

    /// Opens the allocated block `id`.
    pub fn start_block(&mut self, id: BlockId)
        requires
            old(self).wf(),
            old(self)@.current is None,
            old(self)@.unopened().contains(id.0 as int),
        ensures
            final(self)@ == old(self)@.start_block(id),
            final(self).wf(),
            final(self)@.unopened() == old(self)@.unopened().remove(id.0 as int),
    {
        proof {
            reveal(BuilderView::names_in_range);
        }
        self.current_block = Some(id);
        self.ops = Vec::new();
        proof {
            assert(self@.ops =~= Seq::empty());
            assert(self@.unopened() =~= old(self)@.unopened().remove(id.0 as int));
        }
    }

    /// Closes the block under construction: its instructions so far, then
    /// the terminator `end`.
    pub fn end_block(&mut self, end: BlockEnd, weak_link: Option<BlockId>)
        requires
            old(self).wf(),
            old(self)@.current is Some,
            end@.within(old(self)@.registers.len(), old(self)@.blocks.len()),
            weak_link matches Some(link) ==> link.0 < old(self)@.blocks.len(),
        ensures
            final(self)@ == old(self)@.end_block(end@, weak_link),
            final(self).wf(),
            final(self)@.unopened() == old(self)@.unopened(),
    {
        proof {
            reveal(BuilderView::names_in_range);
        }
        let id = self.current_block.take().unwrap();
        let mut ops: Vec<Spanned<Instruction>> = Vec::new();
        std::mem::swap(&mut ops, &mut self.ops);
        let block = Block { ops, end, weak_link };
        self.blocks[id.0] = Some(block);
        proof {
            let before = old(self)@;
            let after = self@;
            assert(after.ops =~= Seq::empty());
            assert(after.blocks =~= before.blocks.update(
                id.0 as int,
                Some(BlockView { ops: before.ops, end: end@, weak_link }),
            ));
            assert(after.unopened() =~= before.unopened());
        }
    }

    /// Enters a loop whose body starts at `start` and which is left to `after`.
    pub fn push_loop(&mut self, start: BlockId, after: BlockId)
        requires
            old(self).wf(),
            start.0 < old(self)@.blocks.len(),
            after.0 < old(self)@.blocks.len(),
        ensures
            final(self)@ == old(self)@.push_loop(start, after),
            final(self).wf(),
    {
        proof {
            reveal(BuilderView::names_in_range);
        }
        self.loops.push(LoopDescr { start, after });
    }

    /// Leaves the innermost loop.
    pub fn pop_loop(&mut self)
        requires
            old(self).wf(),
            old(self)@.loops.len() > 0,
        ensures
            final(self)@ == old(self)@.pop_loop(),
            final(self).wf(),
    {
        proof {
            reveal(BuilderView::names_in_range);
        }
        self.loops.pop();
        proof {
            assert(self@.loops =~= old(self)@.loops.drop_last());
        }
    }

    /// The innermost enclosing loop, if there is one.
    pub fn innermost_loop(&self) -> (found: Option<LoopDescr>)
        requires
            self.wf(),
        ensures
            found == if self@.loops.len() > 0 {
                Some(self@.loops.last())
            } else {
                None
            },
            found matches Some(descr) ==> descr.start.0 < self@.blocks.len() && descr.after.0
                < self@.blocks.len(),
    {
        proof {
            reveal(BuilderView::names_in_range);
        }
        if self.loops.len() > 0 {
            Some(self.loops[self.loops.len() - 1])
        } else {
            None
        }
    }

    /// Stores `value` to the place `target`. What is no place is reported at
    /// `target_span`; a place in error is passed over in silence.
    pub fn emit_store(&mut self, target: LValue, target_span: Span, value: Value)
        requires
            old(self).wf(),
            old(self)@.current is Some,
            target@.within(old(self)@.registers.len()),
            value@.within(old(self)@.registers.len()),
        ensures
            final(self)@ == old(self)@.emit_store(target@, target_span, value@),
            final(self).wf(),
    {
        match target {
            LValue::Invalid => {
                self.report(Problem::InvalidLvalue, target_span);
            },
            LValue::Error => {},
            LValue::Deref(ptr, fields) => {
                self.emit_instruction(
                    Instruction::DerefStore(ptr.as_value(), fields, value),
                    target_span,
                );
                self.drop_value(&ptr, target_span);
            },
            LValue::Reg(reg, fields) => {
                self.emit_instruction(Instruction::FieldStore(reg, fields, value), target_span);
            },
        }
    }

    /// Puts the address of the place `value` into the register `target`.
    /// What is no place is reported at `value_span`; a place in error is
    /// passed over in silence.
    pub fn emit_take_address(&mut self, target: Reg, value_span: Span, value: LValue)
        requires
            old(self).wf(),
            old(self)@.current is Some,
            target.0 < old(self)@.registers.len(),
            value@.within(old(self)@.registers.len()),
        ensures
            final(self)@ == old(self)@.emit_take_address(target, value_span, value@),
            final(self).wf(),
    {
        match value {
            LValue::Invalid => {
                self.report(Problem::InvalidLvalue, value_span);
            },
            LValue::Error => {},
            LValue::Deref(ptr, fields) => {
                self.emit_instruction(
                    Instruction::UnaryOp(target, UnaryOp::OffsetAddress(fields), ptr.as_value()),
                    value_span,
                );
                self.drop_value(&ptr, value_span);
            },
            LValue::Reg(reg, fields) => {
                self.emit_instruction(Instruction::TakeAddress(target, reg, fields), value_span);
            },
        }
    }

    /// Hands over what was built: the function's graph, with `start_block`
    /// as its entry, and the reports made on the way.
    pub fn finish(self, type_params: Vec<Symbol>, start_block: BlockId) -> (done: (
        Function,
        Vec<Diagnostic>,
    ))
        requires
            self.wf(),
            self@.current is None,
            forall|i: int| 0 <= i < self@.blocks.len() ==> (#[trigger] self@.blocks[i]) is Some,
            start_block.0 < self@.blocks.len(),
        ensures
            done.0@ == (FunctionView {
                type_params: type_params@,
                registers: self@.registers,
                blocks: self@.closed_blocks(),
                start_block,
            }),
            done.0@.wf(),
            done.1@ == self@.diagnostics,
    {
        proof {
            reveal(BuilderView::names_in_range);
        }
        proof {
            assert forall|k: int| 0 <= k < self.blocks.len() implies (#[trigger] self.blocks@[k])
                is Some by {
                assert(self@.blocks[k] is Some);
            }
        }
        let mut slots = self.blocks;
        let mut blocks: Vec<Block> = Vec::new();
        let mut i: usize = 0;
        while i < slots.len()
            invariant
                i <= slots.len(),
                slots.len() == self.blocks.len(),
                blocks.len() == i,
                forall|k: int| 0 <= k < self.blocks.len() ==> (#[trigger] self.blocks@[k]) is Some,
                forall|k: int| 0 <= k < i ==> Some(#[trigger] blocks@[k]) == self.blocks@[k],
                forall|k: int| i <= k < slots.len() ==> (#[trigger] slots@[k]) == self.blocks@[k],
            decreases slots.len() - i,
        {
            let slot = slots[i].take();
            blocks.push(slot.unwrap());
            i = i + 1;
        }
        let function = Function { type_params, registers: self.registers, blocks, start_block };
        proof {
            let view = self@;
            assert(function@.blocks =~= view.closed_blocks());
            assert forall|k: int| 0 <= k < function@.blocks.len() implies (
            #[trigger] function@.blocks[k]).within(
                function@.registers.len(),
                function@.blocks.len(),
            ) by {
                assert(view.blocks[k] is Some);
            }
        }
        (function, self.diagnostics)
    }
}

} // verus!
