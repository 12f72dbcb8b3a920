//! Lowering of functions and of whole programs.
use crate::builder::Builder;
use crate::cfg::{self, BlockEnd, BlockId};
use crate::diagnostics::CompileCtx;
use crate::model::{keyed_structs, lowered, lowered_functions, reported, reported_all};
use crate::typed::{Function, Program, Struct};
use std::collections::HashMap;
use vstd::prelude::*;

verus! {

impl Builder {
    /// Lowers the function `f` and returns its entry block.
    ///
    /// Every block allocated on the way is closed at the end: the one that
    /// the body leaves under construction gets the error terminator.
    pub fn build_function(&mut self, f: &Function) -> (entry: BlockId)
        requires
            old(self).wf(),
            old(self)@.current is None,
            f.can_lower(),
        ensures
            (final(self)@, entry) == old(self)@.lower_function(*f),
            final(self).wf(),
            final(self)@.current is None,
            final(self)@.unopened() == old(self)@.unopened(),
            entry.0 < final(self)@.blocks.len(),
    {
        let mut i: usize = 0;
        while i < f.params.len()
            invariant
                i <= f.params.len(),
                self.wf(),
                self@ == old(self)@.bind_params(f.params@, i as nat),
                self@.current is None,
                self@.unopened() == old(self)@.unopened(),
            decreases f.params.len() - i,
        {
            self.new_var_register(f.params[i].name, f.params[i].typ.clone());
            i = i + 1;
        }
        let body_block = self.new_block();
        self.start_block(body_block);
        match &f.body {
            Some(body) => {
                self.build_statement(body);
            },
            None => {},
        }
        if self.has_open_block() {
            self.end_block(BlockEnd::Error, None);
        }
        body_block
    }
}

/// Lowers one function with a builder of its own.
///
/// The graph depends on the function alone: registers and blocks are
/// numbered from zero for each function. The reports made on the way are
/// appended to those that `ctx` holds.
pub fn compile_fn(f: &Function, ctx: &mut CompileCtx) -> (out: cfg::Function)
    requires
        f.can_lower(),
    ensures
        out@ == lowered(*f),
        out@.wf(),
        final(ctx).diagnostics@ == old(ctx).diagnostics@ + reported(*f),
{
    let mut builder = Builder::new();
    let start_block = builder.build_function(f);
    proof {
        assert forall|i: int| 0 <= i < builder@.blocks.len() implies (#[trigger] builder@.blocks[i])
            is Some by {
            assert(!builder@.unopened().contains(i));
        }
    }
    let (function, mut reports) = builder.finish(f.type_params.clone(), start_block);
    ctx.diagnostics.append(&mut reports);
    function
}

/// Lowers every function of `program`, and keeps its structs, each under the
/// number of its symbol.
pub fn build_cfg(program: &Program, ctx: &mut CompileCtx) -> (out: cfg::Program)
    requires
        program.can_lower(),
    ensures
        out@.functions == lowered_functions(program.functions@, program.functions@.len()),
        out@.structs == keyed_structs(program.structs@, program.structs@.len()),
        forall|k: u32| out@.functions.contains_key(k) ==> (#[trigger] out@.functions[k]).wf(),
        final(ctx).diagnostics@ == old(ctx).diagnostics@ + reported_all(
            program.functions@,
            program.functions@.len(),
        ),
{
    let mut functions: HashMap<u32, cfg::Function> = HashMap::new();
    let mut i: usize = 0;
    while i < program.functions.len()
        invariant
            i <= program.functions.len(),
            program.can_lower(),
            functions@.map_values(|f: cfg::Function| f@) == lowered_functions(
                program.functions@,
                i as nat,
            ),
            forall|k: u32| functions@.contains_key(k) ==> (#[trigger] functions@[k])@.wf(),
            ctx.diagnostics@ == old(ctx).diagnostics@ + reported_all(program.functions@, i as nat),
        decreases program.functions.len() - i,
    {
        let ghost before = functions@;
        let f = &program.functions[i];
        let lowered = compile_fn(f, ctx);
        let ghost graph = lowered@;
        functions.insert(f.name.0, lowered);
        proof {
            assert(functions@.map_values(|f: cfg::Function| f@) =~= before.map_values(
                |f: cfg::Function| f@,
            ).insert(f.name.0, graph));
            assert(ctx.diagnostics@ =~= old(ctx).diagnostics@ + reported_all(
                program.functions@,
                (i + 1) as nat,
            ));
        }
        i = i + 1;
    }
    let mut structs: HashMap<u32, Struct> = HashMap::new();
    let mut j: usize = 0;
    while j < program.structs.len()
        invariant
            j <= program.structs.len(),
            structs@.map_values(|s: Struct| s@) == keyed_structs(program.structs@, j as nat),
        decreases program.structs.len() - j,
    {
        let ghost before = structs@;
        let s = &program.structs[j];
        let copy = s.clone();
        structs.insert(s.name.0, copy);
        proof {
            assert(structs@.map_values(|s: Struct| s@) =~= before.map_values(|s: Struct| s@).insert(
                s.name.0,
                s@,
            ));
        }
        j = j + 1;
    }
    let out = cfg::Program { structs, functions };
    proof {
        assert(out@.functions =~= lowered_functions(
            program.functions@,
            program.functions@.len(),
        ));
        assert forall|k: u32| out@.functions.contains_key(k) implies (
        #[trigger] out@.functions[k]).wf() by {
            assert(functions@.contains_key(k));
            assert(out@.functions[k] == functions@[k]@);
        }
    }
    out
}

} // verus!
