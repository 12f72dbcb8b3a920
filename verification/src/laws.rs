//! Properties of the lowering, proved of the model that the builder computes.
use crate::cfg::{BlockEndView, BlockId, BlockView, FunctionView, InstructionView, Reg};
use crate::model::{keyed_structs, lowered, lowered_functions, BuilderView};
use crate::operand::LValueView;
use crate::position::Spanned;
use crate::typed::{BinaryOp, Expr, Function, Statement, Struct, TypedExpr};
use vstd::prelude::*;

verus! {

/// In a well-formed graph every block that control can reach from the entry
/// is a block of the function: it has its terminator, and that terminator
/// is a jump, a branch, a return or the error terminator.
pub proof fn lemma_reachable_blocks_exist(f: FunctionView, id: BlockId)
    requires
        f.wf(),
        f.reachable(id),
    ensures
        id.0 < f.blocks.len(),
{
    let path = choose|path: Seq<BlockId>| #[trigger] f.is_path(path) && path.last() == id;
    lemma_path_stays_inside(f, path, path.len() - 1);
}

/// Every block on a path from the entry of a well-formed graph is a block of
/// the function.
pub proof fn lemma_path_stays_inside(f: FunctionView, path: Seq<BlockId>, i: int)
    requires
        f.wf(),
        f.is_path(path),
        0 <= i < path.len(),
    ensures
        path[i].0 < f.blocks.len(),
    decreases i,
{
    if i > 0 {
        lemma_path_stays_inside(f, path, i - 1);
        let from = path[i - 1];
        assert(f.steps(from, path[i - 1 + 1]));
        assert(f.blocks[from.0 as int].within(f.registers.len(), f.blocks.len()));
    }
}

/// `break` inside loops jumps to the block after the innermost loop: it
/// closes the block under construction, unchanged, with that jump, and goes
/// on in a fresh block, which the weak link of the closed block names.
pub proof fn lemma_break_leaves_innermost_loop(st: BuilderView, s: Spanned<Statement>)
    requires
        st.inv(),
        st.current is Some,
        st.loops.len() > 0,
        s.value is Break,
    ensures
        ({
            let next = st.lower_statement(s);
            let fresh = BlockId(st.blocks.len() as usize);
            let left = st.current->0;
            &&& next.blocks[left.0 as int] == Some(
                BlockView {
                    ops: st.ops,
                    end: BlockEndView::Jump(st.loops.last().after),
                    weak_link: Some(fresh),
                },
            )
            &&& next.current == Some(fresh)
            &&& next.ops.len() == 0
            &&& next.loops == st.loops
            &&& next.diagnostics == st.diagnostics
        }),
{
}

/// `continue` inside loops jumps to the start of the innermost loop: it
/// closes the block under construction, unchanged, with that jump, and goes
/// on in a fresh block, which the weak link of the closed block names.
pub proof fn lemma_continue_restarts_innermost_loop(st: BuilderView, s: Spanned<Statement>)
    requires
        st.inv(),
        st.current is Some,
        st.loops.len() > 0,
        s.value is Continue,
    ensures
        ({
            let next = st.lower_statement(s);
            let fresh = BlockId(st.blocks.len() as usize);
            let left = st.current->0;
            &&& next.blocks[left.0 as int] == Some(
                BlockView {
                    ops: st.ops,
                    end: BlockEndView::Jump(st.loops.last().start),
                    weak_link: Some(fresh),
                },
            )
            &&& next.current == Some(fresh)
            &&& next.ops.len() == 0
            &&& next.loops == st.loops
            &&& next.diagnostics == st.diagnostics
        }),
{
}

/// The state in which `loop body` lowers its body: two blocks more, the
/// first of them under construction, and the loop's own descriptor on top
/// of the enclosing loops.
pub open spec fn inside_loop(st: BuilderView) -> BuilderView {
    let (s1, start) = st.new_block();
    let (s2, after) = s1.new_block();
    s2.push_loop(start, after).end_block(BlockEndView::Jump(start), Some(start)).start_block(start)
}

/// A loop lowers its body with itself as the innermost loop: the
/// descriptor on top of the stack names the loop's own start block and the
/// block after it, and below it the enclosing loops are unchanged. So a
/// `break` or `continue` in the body, outside any loop nested in it, leaves
/// or restarts this loop and no outer one.
pub proof fn lemma_loop_body_sees_own_loop(st: BuilderView, s: Spanned<Statement>)
    requires
        st.inv(),
        st.current is Some,
        s.value is Loop,
    ensures
        ({
            let body = *s.value->Loop_0;
            let inside = inside_loop(st);
            let start = BlockId(st.blocks.len() as usize);
            let after = BlockId((st.blocks.len() + 1) as usize);
            &&& inside.loops.len() == st.loops.len() + 1
            &&& inside.loops.drop_last() == st.loops
            &&& inside.loops.last().start == start
            &&& inside.loops.last().after == after
            &&& inside.current == Some(start)
            &&& st.lower_statement(s) == inside.lower_statement(body).end_block(
                BlockEndView::Jump(start),
                Some(after),
            ).pop_loop().start_block(after)
        }),
{
    let inside = inside_loop(st);
    assert(inside.loops.drop_last() =~= st.loops);
}

/// The state in which `while cond body` lowers its condition: three blocks
/// more, the first of them under construction, and the loop's own
/// descriptor on top of the enclosing loops.
pub open spec fn inside_while(st: BuilderView) -> BuilderView {
    let (s1, start) = st.new_block();
    let (s2, body_start) = s1.new_block();
    let (s3, after) = s2.new_block();
    s3.push_loop(start, after).end_block(BlockEndView::Jump(start), Some(start)).start_block(start)
}

/// A `while` lowers its body with itself as the innermost loop: the
/// descriptor on top of the stack names the block that evaluates the
/// condition, where `continue` goes, and the block after the loop, where
/// `break` goes and where the branch on the condition goes when it is false.
pub proof fn lemma_while_body_sees_own_loop(st: BuilderView, s: Spanned<Statement>)
    requires
        st.inv(),
        st.current is Some,
        s.value is While,
    ensures
        ({
            let cond = s.value->While_0;
            let body = *s.value->While_1;
            let inside = inside_while(st);
            let start = BlockId(st.blocks.len() as usize);
            let body_start = BlockId((st.blocks.len() + 1) as usize);
            let after = BlockId((st.blocks.len() + 2) as usize);
            let (tested, c) = inside.lower_expr(cond);
            let entered = tested.end_block(
                BlockEndView::Branch(c.as_value(), body_start, after),
                Some(after),
            ).start_block(body_start).drop_value(c, cond.span);
            &&& inside.loops.drop_last() == st.loops
            &&& inside.loops.last().start == start
            &&& inside.loops.last().after == after
            &&& inside.current == Some(start)
            &&& entered.loops == tested.loops
            &&& st.lower_statement(s) == entered.lower_statement(body).end_block(
                BlockEndView::Jump(start),
                Some(after),
            ).pop_loop().start_block(after).drop_value(c, cond.span)
        }),
{
    let inside = inside_while(st);
    assert(inside.loops.drop_last() =~= st.loops);
}

/// The innermost expression under a chain of field accesses.
pub open spec fn chain_root(e: TypedExpr) -> TypedExpr
    decreases e,
{
    match *e.expr {
        Expr::Field(base, _) => chain_root(base),
        _ => e,
    }
}

/// The field indices of a chain of field accesses, innermost access first.
pub open spec fn chain_path(e: TypedExpr) -> Seq<usize>
    decreases e,
{
    match *e.expr {
        Expr::Field(base, index) => chain_path(base).push(index.value),
        _ => Seq::empty(),
    }
}

/// The register of `e`, if `e` is the name of a variable in scope.
pub open spec fn local_register(st: BuilderView, e: TypedExpr) -> Option<Reg> {
    match *e.expr {
        Expr::Name(name, _) => if st.vars.contains_key(name.value.0) {
            Some(st.vars[name.value.0])
        } else {
            None
        },
        _ => None,
    }
}

/// Target and right-hand side of `e`, if `e` is an assignment.
pub open spec fn assignment(e: TypedExpr) -> Option<(TypedExpr, TypedExpr)> {
    match *e.expr {
        Expr::Binary(target, op, value) => if op.value == BinaryOp::Assign {
            Some((target, value))
        } else {
            None
        },
        _ => None,
    }
}

/// A chain of field accesses on a local variable is one place: the
/// variable's register with the whole path. Lowering it emits nothing.
pub proof fn lemma_field_chain_is_one_place(st: BuilderView, e: TypedExpr)
    requires
        local_register(st, chain_root(e)) is Some,
    ensures
        st.lower_place(e) == (
            st,
            LValueView::Reg(local_register(st, chain_root(e))->0, chain_path(e)),
        ),
    decreases e,
{
    match *e.expr {
        Expr::Field(base, index) => {
            lemma_field_chain_is_one_place(st, base);
        },
        _ => {},
    }
}

/// Assigning to a chain of field accesses on a local variable, however
/// long, emits one store: after the instructions of the right-hand side
/// comes a single field store into the variable's register, with the whole
/// path.
pub proof fn lemma_field_chain_store_is_one_instruction(st: BuilderView, e: TypedExpr)
    requires
        assignment(e) matches Some((target, _)) && local_register(st, chain_root(target)) is Some,
    ensures
        ({
            let (target, source) = assignment(e)->0;
            let (computed, value) = st.lower_expr(source);
            let reg = local_register(st, chain_root(target))->0;
            st.lower_expr(e) == (
                computed.emit(
                    InstructionView::FieldStore(reg, chain_path(target), value.as_value()),
                    target.span,
                ),
                value,
            )
        }),
{
    let (target, source) = assignment(e)->0;
    lemma_field_chain_is_one_place(st, target);
}

/// Function `i` is the last among the first `n` with the symbol number `k`.
pub open spec fn last_function_named(functions: Seq<Function>, n: nat, k: u32, i: int) -> bool {
    &&& 0 <= i < n
    &&& functions[i].name.0 == k
    &&& forall|j: int| i < j < n ==> (#[trigger] functions[j]).name.0 != k
}

/// The lowered program holds a graph under a symbol exactly if a function
/// has that symbol, and the graph is that of the last function that has it.
pub proof fn lemma_functions_by_symbol(functions: Seq<Function>, n: nat, k: u32)
    requires
        n <= functions.len(),
    ensures
        lowered_functions(functions, n).contains_key(k) <==> exists|i: int|
            0 <= i < n && (#[trigger] functions[i]).name.0 == k,
        forall|i: int| #[trigger]
            last_function_named(functions, n, k, i) ==> lowered_functions(functions, n)[k]
                == lowered(functions[i]),
    decreases n,
{
    if n > 0 {
        lemma_functions_by_symbol(functions, (n - 1) as nat, k);
        let before = lowered_functions(functions, (n - 1) as nat);
        if functions[n - 1].name.0 == k {
            assert(functions[n - 1].name.0 == k);
        } else {
            assert forall|i: int| #[trigger]
                last_function_named(functions, n, k, i) implies lowered_functions(functions, n)[k]
                == lowered(functions[i]) by {
                assert(last_function_named(functions, (n - 1) as nat, k, i));
            }
        }
    }
}

/// Struct `i` is the last among the first `n` with the symbol number `k`.
pub open spec fn last_struct_named(structs: Seq<Struct>, n: nat, k: u32, i: int) -> bool {
    &&& 0 <= i < n
    &&& structs[i].name.0 == k
    &&& forall|j: int| i < j < n ==> (#[trigger] structs[j]).name.0 != k
}

/// The lowered program holds a struct under a symbol exactly if a struct
/// has that symbol, and it is the last struct that has it.
pub proof fn lemma_structs_by_symbol(structs: Seq<Struct>, n: nat, k: u32)
    requires
        n <= structs.len(),
    ensures
        keyed_structs(structs, n).contains_key(k) <==> exists|i: int|
            0 <= i < n && (#[trigger] structs[i]).name.0 == k,
        forall|i: int| #[trigger]
            last_struct_named(structs, n, k, i) ==> keyed_structs(structs, n)[k] == structs[i]@,
    decreases n,
{
    if n > 0 {
        lemma_structs_by_symbol(structs, (n - 1) as nat, k);
        if structs[n - 1].name.0 == k {
            assert(structs[n - 1].name.0 == k);
        } else {
            assert forall|i: int| #[trigger]
                last_struct_named(structs, n, k, i) implies keyed_structs(structs, n)[k]
                == structs[i]@ by {
                assert(last_struct_named(structs, (n - 1) as nat, k, i));
            }
        }
    }
}

} // verus!
