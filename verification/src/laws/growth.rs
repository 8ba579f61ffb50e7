//! Lowering only ever adds: lines to the two buffers, slots to the symbol
//! table. Expressions touch nothing but the buffers; statements leave the
//! scope chain as they found it.

use vstd::prelude::*;
use crate::lowering::expr::{lower_args, lower_expr, pass_argument};
use crate::lowering::function::{bind_param, lower_params};
use crate::lowering::stmt::{
    declared_sizes, lower_assign, lower_block, lower_declare, lower_if, lower_inline, lower_stmt,
    lower_stmts, lower_while, open_scope, substitute, test_and_branch,
};
use crate::instr::{Instr, Jump};
use crate::parser::expr::ExprView;
use crate::parser::stmt::{AssginOp, DeclareView, ElseView, IfView, StmtView, VariableType};
use crate::state::State;

verus! {

/// `long` starts with the items of `short`.
pub open spec fn begins_with<A>(long: Seq<A>, short: Seq<A>) -> bool {
    &&& short.len() <= long.len()
    &&& forall|i: int| 0 <= i < short.len() ==> #[trigger] long[i] == short[i]
}

/// `after` differs from `before` by lines added to the two buffers.
pub open spec fn emitted(before: State, after: State) -> bool {
    &&& begins_with(after.code, before.code)
    &&& begins_with(after.data, before.data)
    &&& after.scopes == before.scopes
    &&& after.block_id == before.block_id
    &&& after.vars == before.vars
    &&& after.funcs == before.funcs
    &&& after.mem_offset == before.mem_offset
    &&& after.warnings == before.warnings
}

/// Lowering an expression adds at least one instruction and changes nothing
/// but the buffers.
pub proof fn lemma_expr_emits(st: State, e: ExprView)
    requires
        lower_expr(st, e) is Ok,
    ensures
        emitted(st, lower_expr(st, e)->Ok_0),
        lower_expr(st, e)->Ok_0.code.len() > st.code.len(),
    decreases e,
{
    match e {
        ExprView::Unary(op, right) => {
            lemma_expr_emits(st, *right);
        },
        ExprView::Binary(left, op, right) => {
            lemma_expr_emits(st, *left);
            lemma_expr_emits(lower_expr(st, *left)->Ok_0, *right);
        },
        ExprView::Compare(left, op, right) => {
            lemma_expr_emits(st, *left);
            lemma_expr_emits(lower_expr(st, *left)->Ok_0, *right);
        },
        ExprView::FunctionCall(ident, args) => {
            lemma_args_emit(st, args, 0);
        },
        ExprView::ArrayIndex(ident, indexer) => {
            lemma_expr_emits(st, *indexer);
        },
        _ => {},
    }
}

/// Lowering the arguments of a call changes nothing but the buffers.
pub proof fn lemma_args_emit(st: State, args: Seq<ExprView>, i: nat)
    requires
        lower_args(st, args, i) is Ok,
    ensures
        emitted(st, lower_args(st, args, i)->Ok_0),
    decreases args, args.len() - i,
{
    if i < args.len() {
        lemma_expr_emits(st, args[i as int]);
        let s = lower_expr(st, args[i as int])->Ok_0;
        lemma_args_emit(pass_argument(s, args[i as int] is String, i), args, i + 1);
    }
}

/// `after` differs from `before` by lines added to the two buffers, slots
/// added to the symbol table, and counters that moved on.
pub open spec fn advanced(before: State, after: State) -> bool {
    &&& begins_with(after.code, before.code)
    &&& begins_with(after.data, before.data)
    &&& begins_with(after.vars, before.vars)
    &&& after.scopes == before.scopes
    &&& after.funcs == before.funcs
    &&& before.block_id <= after.block_id
    &&& before.mem_offset <= after.mem_offset
    &&& begins_with(after.warnings, before.warnings)
    &&& before.wf() ==> after.wf()
}

/// A declaration adds code and one slot.
pub proof fn lemma_declare_advances(st: State, v: DeclareView)
    requires
        lower_declare(st, v) is Ok,
    ensures
        advanced(st, lower_declare(st, v)->Ok_0),
{
    let (size, item_size) = declared_sizes(v.v_type)->Ok_0;
    let grown = State { mem_offset: st.mem_offset + size, ..st };
    let after = lower_declare(st, v)->Ok_0;
    match v.init_value {
        Some(init) => {
            lemma_expr_emits(grown, init);
        },
        None => {},
    }
    assert(after.vars.len() == st.vars.len() + 1);
    if st.wf() {
        assert forall|i: int| 0 <= i < after.vars.len() implies (#[trigger] after.vars[i]).slot.fits(
            after.mem_offset,
        ) by {
            if i < st.vars.len() {
                assert(after.vars[i] == st.vars[i]);
            }
        }
    }
}

/// An assignment adds code only.
pub proof fn lemma_assign_advances(st: State, left: ExprView, op: AssginOp, right: ExprView)
    requires
        lower_assign(st, left, op, right) is Ok,
    ensures
        advanced(st, lower_assign(st, left, op, right)->Ok_0),
{
    match left {
        ExprView::Variable(v) => {
            lemma_expr_emits(st, right);
        },
        ExprView::ArrayIndex(ident, indexer) => {
            lemma_expr_emits(st, right);
            lemma_expr_emits(lower_expr(st, right)->Ok_0, *indexer);
        },
        _ => {},
    }
}

/// Inline assembly adds code only.
pub proof fn lemma_inline_advances(st: State, lines: Seq<Seq<char>>, i: nat)
    requires
        lower_inline(st, lines, i) is Ok,
    ensures
        advanced(st, lower_inline(st, lines, i)->Ok_0),
    decreases lines.len() - i,
{
    if i < lines.len() {
        let text = substitute(st, lines[i as int])->Ok_0;
        lemma_inline_advances(st.emit(Instr::Inline(text)), lines, i + 1);
    }
}

/// A statement only adds, and leaves the scope chain as it found it.
pub proof fn lemma_stmt_advances(st: State, s: StmtView)
    requires
        lower_stmt(st, s) is Ok,
    ensures
        advanced(st, lower_stmt(st, s)->Ok_0),
    decreases s,
{
    match s {
        StmtView::VariableDecl(v) => lemma_declare_advances(st, v),
        StmtView::Print(e) => lemma_expr_emits(st, e),
        StmtView::If(ifs) => lemma_if_advances(st, ifs, st.code.len()),
        StmtView::Assgin(left, op, right) => lemma_assign_advances(st, left, op, right),
        StmtView::While(condition, body) => lemma_while_advances(st, condition, body),
        StmtView::Expr(e) => {
            if e is FunctionCall {
                lemma_expr_emits(st, e);
            }
        },
        StmtView::Return(e) => lemma_expr_emits(st, e),
        StmtView::InlineAsm(lines) => lemma_inline_advances(st, lines, 0),
        StmtView::Break => {},
        StmtView::Continue => {},
    }
}

/// The statements of a block only add, and leave the scope chain as they
/// found it.
pub proof fn lemma_stmts_advance(st: State, stmts: Seq<StmtView>, i: nat)
    requires
        lower_stmts(st, stmts, i) is Ok,
    ensures
        advanced(st, lower_stmts(st, stmts, i)->Ok_0),
    decreases stmts, stmts.len() - i,
{
    if i < stmts.len() {
        lemma_stmt_advances(st, stmts[i as int]);
        lemma_stmts_advance(lower_stmt(st, stmts[i as int])->Ok_0, stmts, i + 1);
    }
}

/// A block leaves the scope chain as it found it, and the block counter
/// higher.
pub proof fn lemma_block_advances(st: State, b: Seq<StmtView>)
    requires
        lower_block(st, b) is Ok,
    ensures
        advanced(st, lower_block(st, b)->Ok_0),
        lower_block(st, b)->Ok_0.block_id > st.block_id,
    decreases b, b.len() + 1,
{
    lemma_stmts_advance(open_scope(st), b, 0);
    let s = lower_stmts(open_scope(st), b, 0)->Ok_0;
    assert(s.scopes.drop_last() =~= st.scopes);
}

/// An `if` chain only adds, and leaves the scope chain as it found it.
pub proof fn lemma_if_advances(st: State, ifs: IfView, exit: nat)
    requires
        lower_if(st, ifs, exit) is Ok,
    ensures
        advanced(st, lower_if(st, ifs, exit)->Ok_0),
    decreases ifs,
{
    lemma_expr_emits(st, ifs.condition);
    let s0 = lower_expr(st, ifs.condition)->Ok_0;
    let next = if *ifs.else_block is NoElse {
        exit
    } else {
        s0.code.len()
    };
    let tested = test_and_branch(s0, Jump::IfZero, next);
    lemma_block_advances(tested, ifs.then_block);
    let s1 = lower_block(tested, ifs.then_block)->Ok_0;
    match *ifs.else_block {
        ElseView::NoElse => {},
        ElseView::Else(b) => {
            lemma_block_advances(s1.branch(Jump::Always, exit).label(next), b);
        },
        ElseView::Elif(inner) => {
            lemma_if_advances(s1.branch(Jump::Always, exit).label(next), inner, exit);
        },
    }
}

/// A loop only adds, and leaves the scope chain as it found it.
pub proof fn lemma_while_advances(st: State, condition: ExprView, body: Seq<StmtView>)
    requires
        lower_while(st, condition, body) is Ok,
    ensures
        advanced(st, lower_while(st, condition, body)->Ok_0),
    decreases body, body.len() + 2,
{
    let cond = st.code.len();
    let s0 = st.branch(Jump::Always, cond).label(cond + 1);
    lemma_block_advances(s0, body);
    let s1 = lower_block(s0, body)->Ok_0;
    lemma_expr_emits(s1.label(cond), condition);
}

/// Binding the parameters adds slots and stores, and opens no block.
pub proof fn lemma_params_advance(st: State, args: Seq<(Seq<char>, VariableType)>, i: nat)
    requires
        lower_params(st, args, i) is Ok,
    ensures
        advanced(st, lower_params(st, args, i)->Ok_0),
        lower_params(st, args, i)->Ok_0.block_id == st.block_id,
    decreases args.len() - i,
{
    if i < args.len() {
        let next = bind_param(st, args[i as int].0, i);
        lemma_params_advance(next, args, i + 1);
        if st.wf() {
            assert forall|k: int| 0 <= k < next.vars.len() implies (#[trigger] next.vars[k]).slot.fits(
                next.mem_offset,
            ) by {
                if k < st.vars.len() {
                    assert(next.vars[k] == st.vars[k]);
                }
            }
        }
    }
}

/// The slots that `after` has and `before` has not belong to scopes
/// numbered `floor` or higher.
pub open spec fn binds_above(before: State, after: State, floor: nat) -> bool {
    forall|i: int|
        before.vars.len() <= i < after.vars.len() ==> (#[trigger] after.vars[i]).scope >= floor
}

/// What two steps bind above `floor`, they bind above it together.
proof fn lemma_binds_above_join(a: State, b: State, c: State, floor: nat)
    requires
        begins_with(c.vars, b.vars),
        binds_above(a, b, floor),
        binds_above(b, c, floor),
    ensures
        binds_above(a, c, floor),
{
    assert forall|i: int| a.vars.len() <= i < c.vars.len() implies (#[trigger] c.vars[i]).scope
        >= floor by {
        if i < b.vars.len() {
            assert(c.vars[i] == b.vars[i]);
        }
    }
}

/// A statement declares in the innermost open scope and in the scopes of
/// the blocks it opens, whose ids are above the block counter.
pub proof fn lemma_stmt_binds_above(st: State, s: StmtView, floor: nat)
    requires
        lower_stmt(st, s) is Ok,
        floor <= st.current_scope(),
        floor <= st.block_id + 1,
    ensures
        binds_above(st, lower_stmt(st, s)->Ok_0, floor),
    decreases s,
{
    let after = lower_stmt(st, s)->Ok_0;
    match s {
        StmtView::VariableDecl(v) => {
            let (size, item_size) = declared_sizes(v.v_type)->Ok_0;
            let grown = State { mem_offset: st.mem_offset + size, ..st };
            if let Some(init) = v.init_value {
                lemma_expr_emits(grown, init);
            }
            assert(after.vars.len() == st.vars.len() + 1);
            assert(after.vars[st.vars.len() as int].scope == st.current_scope());
            assert(binds_above(st, after, floor));
        },
        StmtView::Print(e) => {
            lemma_expr_emits(st, e);
            assert(after.vars == st.vars);
        },
        StmtView::If(ifs) => lemma_if_binds_above(st, ifs, st.code.len(), floor),
        StmtView::Assgin(left, op, right) => {
            match left {
                ExprView::Variable(v) => {
                    lemma_expr_emits(st, right);
                },
                ExprView::ArrayIndex(ident, indexer) => {
                    lemma_expr_emits(st, right);
                    lemma_expr_emits(lower_expr(st, right)->Ok_0, *indexer);
                },
                _ => {},
            }
            assert(after.vars == st.vars);
        },
        StmtView::While(condition, body) => lemma_while_binds_above(st, condition, body, floor),
        StmtView::Expr(e) => {
            if e is FunctionCall {
                lemma_expr_emits(st, e);
            }
            assert(after.vars == st.vars);
        },
        StmtView::Return(e) => {
            lemma_expr_emits(st, e);
            assert(after.vars == st.vars);
        },
        StmtView::InlineAsm(lines) => {
            lemma_inline_emits(st, lines, 0);
            assert(after.vars == st.vars);
        },
        _ => {},
    }
}

/// Inline assembly adds lines to the instruction buffer and nothing else.
pub proof fn lemma_inline_emits(st: State, lines: Seq<Seq<char>>, i: nat)
    requires
        lower_inline(st, lines, i) is Ok,
    ensures
        emitted(st, lower_inline(st, lines, i)->Ok_0),
    decreases lines.len() - i,
{
    if i < lines.len() {
        let text = substitute(st, lines[i as int])->Ok_0;
        lemma_inline_emits(st.emit(Instr::Inline(text)), lines, i + 1);
    }
}

/// The statements of a block from position `i` on declare in scopes
/// numbered `floor` or higher.
pub proof fn lemma_stmts_bind_above(st: State, stmts: Seq<StmtView>, i: nat, floor: nat)
    requires
        lower_stmts(st, stmts, i) is Ok,
        floor <= st.current_scope(),
        floor <= st.block_id + 1,
    ensures
        binds_above(st, lower_stmts(st, stmts, i)->Ok_0, floor),
    decreases stmts, stmts.len() - i,
{
    if i < stmts.len() {
        let s1 = lower_stmt(st, stmts[i as int])->Ok_0;
        lemma_stmt_binds_above(st, stmts[i as int], floor);
        lemma_stmt_advances(st, stmts[i as int]);
        lemma_stmts_bind_above(s1, stmts, i + 1, floor);
        lemma_stmts_advance(s1, stmts, i + 1);
        lemma_binds_above_join(st, s1, lower_stmts(s1, stmts, i + 1)->Ok_0, floor);
    }
}

/// A block declares in its own scope and in those of the blocks within
/// it, all numbered above the block counter as it was before the block.
pub proof fn lemma_block_binds_above(st: State, b: Seq<StmtView>, floor: nat)
    requires
        lower_block(st, b) is Ok,
        floor <= st.block_id + 1,
    ensures
        binds_above(st, lower_block(st, b)->Ok_0, floor),
    decreases b, b.len() + 1,
{
    lemma_stmts_bind_above(open_scope(st), b, 0, floor);
}

/// An `if` chain declares in the scopes of its blocks.
pub proof fn lemma_if_binds_above(st: State, ifs: IfView, exit: nat, floor: nat)
    requires
        lower_if(st, ifs, exit) is Ok,
        floor <= st.block_id + 1,
    ensures
        binds_above(st, lower_if(st, ifs, exit)->Ok_0, floor),
    decreases ifs,
{
    let after = lower_if(st, ifs, exit)->Ok_0;
    lemma_expr_emits(st, ifs.condition);
    let s0 = lower_expr(st, ifs.condition)->Ok_0;
    let next = if *ifs.else_block is NoElse {
        exit
    } else {
        s0.code.len()
    };
    let tested = test_and_branch(s0, Jump::IfZero, next);
    lemma_block_binds_above(tested, ifs.then_block, floor);
    lemma_block_advances(tested, ifs.then_block);
    let s1 = lower_block(tested, ifs.then_block)->Ok_0;
    match *ifs.else_block {
        ElseView::NoElse => {},
        ElseView::Else(b) => {
            let s2 = s1.branch(Jump::Always, exit).label(next);
            lemma_block_binds_above(s2, b, floor);
            lemma_block_advances(s2, b);
            lemma_binds_above_join(st, s2, lower_block(s2, b)->Ok_0, floor);
        },
        ElseView::Elif(inner) => {
            let s2 = s1.branch(Jump::Always, exit).label(next);
            lemma_if_binds_above(s2, inner, exit, floor);
            lemma_if_advances(s2, inner, exit);
            lemma_binds_above_join(st, s2, after, floor);
        },
    }
}

/// A loop declares in the scopes of its body.
pub proof fn lemma_while_binds_above(
    st: State,
    condition: ExprView,
    body: Seq<StmtView>,
    floor: nat,
)
    requires
        lower_while(st, condition, body) is Ok,
        floor <= st.block_id + 1,
    ensures
        binds_above(st, lower_while(st, condition, body)->Ok_0, floor),
    decreases body, body.len() + 2,
{
    let cond = st.code.len();
    let s0 = st.branch(Jump::Always, cond).label(cond + 1);
    lemma_block_binds_above(s0, body, floor);
    lemma_block_advances(s0, body);
    let s1 = lower_block(s0, body)->Ok_0;
    lemma_expr_emits(s1.label(cond), condition);
}

} // verus!
