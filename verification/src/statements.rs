//! Lowering of statements: where structured control flow becomes blocks and jumps.
use crate::builder::Builder;
use crate::cfg::{BlockEnd, Instruction};
use crate::diagnostics::Problem;
use crate::position::Spanned;
use crate::typed::Statement;
use vstd::prelude::*;

verus! {

impl Builder {
    /// Lowers a statement into the block under construction, opening and
    /// closing blocks as its control flow asks.
    ///
    /// Afterwards a block is under construction again: the one that control
    /// reaches after the statement, or, after `break`, `continue` and
    /// `return`, a fresh block that nothing jumps to. `break` and `continue`
    /// outside a loop are reported and emit nothing.
    #[verifier::rlimit(100)]
    pub fn build_statement(&mut self, s: &Spanned<Statement>)
        requires
            old(self).wf(),
            old(self)@.current is Some,
            s.value.can_lower(),
        ensures
            final(self)@ == old(self)@.lower_statement(*s),
            final(self).wf(),
            old(self)@.carries_on(final(self)@),
        decreases s,
    {
        let span = s.span;
        match &s.value {
            Statement::Block(statements) => {
                let mut i: usize = 0;
                while i < statements.len()
                    invariant
                        i <= statements.len(),
                        s.value == Statement::Block(*statements),
                        s.value.can_lower(),
                        self.wf(),
                        self@ == old(self)@.lower_statements(statements@, i as nat),
                        old(self)@.carries_on(self@),
                    decreases statements.len() - i,
                {
                    proof {
                        assert(s.value->Block_0 == *statements);
                        assert(decreases_to!(s => s.value));
                        assert(decreases_to!(s.value => s.value->Block_0));
                        assert(decreases_to!(*statements => statements@));
                        assert(decreases_to!(statements@ => statements@[i as int]));
                        assert(statements@[i as int].value.can_lower());
                    }
                    self.emit_instruction(Instruction::StartStatement, statements[i].span);
                    self.build_statement(&statements[i]);
                    i = i + 1;
                }
            },
            Statement::Break => {
                match self.innermost_loop() {
                    Some(descr) => {
                        let fresh = self.new_block();
                        self.end_block(BlockEnd::Jump(descr.after), Some(fresh));
                        self.start_block(fresh);
                    },
                    None => {
                        self.report(Problem::BreakOutsideLoop, span);
                    },
                }
            },
            Statement::Continue => {
                match self.innermost_loop() {
                    Some(descr) => {
                        let fresh = self.new_block();
                        self.end_block(BlockEnd::Jump(descr.start), Some(fresh));
                        self.start_block(fresh);
                    },
                    None => {
                        self.report(Problem::ContinueOutsideLoop, span);
                    },
                }
            },
            Statement::Expr(e) => {
                let value = self.build_expr(e);
                self.drop_value(&value, e.span);
            },
            Statement::If(cond, then, Some(otherwise)) => {
                let c = self.build_expr(cond);
                let body = self.new_block();
                let else_body = self.new_block();
                let after = self.new_block();
                self.end_block(BlockEnd::Branch(c.as_value(), body, else_body), Some(after));
                self.start_block(body);
                self.drop_value(&c, cond.span);
                self.build_statement(then);
                self.end_block(BlockEnd::Jump(after), Some(after));
                self.start_block(else_body);
                self.drop_value(&c, cond.span);
                self.build_statement(otherwise);
                self.end_block(BlockEnd::Jump(after), Some(after));
                self.start_block(after);
            },
            Statement::If(cond, then, None) => {
                let c = self.build_expr(cond);
                let body = self.new_block();
                let after = self.new_block();
                self.end_block(BlockEnd::Branch(c.as_value(), body, after), Some(after));
                self.start_block(body);
                self.drop_value(&c, cond.span);
                self.build_statement(then);
                self.end_block(BlockEnd::Jump(after), Some(after));
                self.start_block(after);
                self.drop_value(&c, cond.span);
            },
            Statement::Let(name, typ, value) => {
                let v = self.build_expr(value);
                let var_register = self.new_var_register(name.value, typ.value.clone());
                self.emit_instruction(Instruction::Assign(var_register, v.as_value()), span);
                self.drop_value(&v, span);
            },
            Statement::Loop(body) => {
                let start = self.new_block();
                let after = self.new_block();
                self.push_loop(start, after);
                self.end_block(BlockEnd::Jump(start), Some(start));
                self.start_block(start);
                self.build_statement(body);
                self.end_block(BlockEnd::Jump(start), Some(after));
                self.pop_loop();
                assert(self@.loops =~= old(self)@.loops);
                self.start_block(after);
            },
            Statement::Return(e) => {
                let value = self.build_expr(e);
                let fresh = self.new_block();
                self.end_block(BlockEnd::Return(value.as_value()), Some(fresh));
                self.start_block(fresh);
            },
            Statement::While(cond, body) => {
                let start = self.new_block();
                let body_start = self.new_block();
                let after = self.new_block();
                self.push_loop(start, after);
                self.end_block(BlockEnd::Jump(start), Some(start));
                self.start_block(start);
                let c = self.build_expr(cond);
                self.end_block(BlockEnd::Branch(c.as_value(), body_start, after), Some(after));
                self.start_block(body_start);
                self.drop_value(&c, cond.span);
                self.build_statement(body);
                self.end_block(BlockEnd::Jump(start), Some(after));
                self.pop_loop();
                assert(self@.loops =~= old(self)@.loops);
                self.start_block(after);
                self.drop_value(&c, cond.span);
            },
        }
    }
}

} // verus!
