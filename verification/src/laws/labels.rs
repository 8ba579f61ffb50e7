//! Local labels: every jump of a function goes to a label that the function
//! defines, and defines once.

use vstd::prelude::*;
use crate::instr::{Instr, Jump};
use crate::laws::growth::{
    begins_with, lemma_args_emit, lemma_block_advances, lemma_expr_emits, lemma_if_advances,
    lemma_inline_advances, lemma_params_advance, lemma_stmt_advances, lemma_stmts_advance,
};
use crate::lowering::expr::{lower_args, lower_expr, pass_argument};
use crate::lowering::function::{bind_param, begin_function, lower_function, lower_params};
use crate::lowering::program::{
    import_path, is_exported, lower_file, lower_item, lower_items, lower_program, register,
    source_from,
};
use crate::parser::program::{FileView, ItemView};

use crate::lowering::stmt::{
    declared_sizes, lower_assign, lower_block, lower_declare, lower_if, lower_inline, lower_stmt,
    lower_stmts, lower_while, open_scope, substitute, test_and_branch,
};
use crate::parser::expr::ExprView;
use crate::parser::function::FunctionView;
use crate::parser::stmt::{AssginOp, DeclareView, ElseView, IfView, StmtView, VariableType};
use crate::state::State;
use crate::text::{decimal, lemma_decimal_injective};

verus! {

/// The local label that a line defines or jumps to.
pub open spec fn label_of(i: Instr) -> Option<nat> {
    match i {
        Instr::Label(n) => Some(n),
        Instr::Branch(_, n) => Some(n),
        _ => None,
    }
}

/// None of the lines `lo` to `hi - 1` defines a label or jumps to one.
#[verifier::opaque]
pub open spec fn label_free(code: Seq<Instr>, lo: int, hi: int) -> bool {
    forall|i: int| lo <= i < hi ==> label_of(#[trigger] code[i]) is None
}

/// The labels that the lines `lo` to `hi - 1` define or jump to are `other`
/// or lie between `from` and `to`.
#[verifier::opaque]
pub open spec fn labels_between(
    code: Seq<Instr>,
    lo: int,
    hi: int,
    from: int,
    to: int,
    other: int,
) -> bool {
    forall|i: int|
        lo <= i < hi ==> (label_of(#[trigger] code[i]) matches Some(n) ==> n == other || from
            <= n < to)
}

/// One of the lines `lo` to `hi - 1` defines label `n`.
#[verifier::opaque]
pub open spec fn defines(code: Seq<Instr>, lo: int, hi: int, n: nat) -> bool {
    exists|j: int| lo <= j < hi && #[trigger] code[j] == Instr::Label(n)
}

/// No label is defined twice among the lines `lo` to `hi - 1`.
#[verifier::opaque]
pub open spec fn defined_once(code: Seq<Instr>, lo: int, hi: int) -> bool {
    forall|i: int, j: int|
        lo <= i < hi && lo <= j < hi && (#[trigger] code[i]) is Label && code[i] == (
        #[trigger] code[j]) ==> i == j
}

/// Every jump among the lines `lo` to `hi - 1` goes to a label that one of
/// these lines defines.
#[verifier::opaque]
pub open spec fn jumps_land(code: Seq<Instr>, lo: int, hi: int) -> bool {
    forall|i: int|
        lo <= i < hi && (#[trigger] code[i]) is Branch ==> exists|j: int|
            lo <= j < hi && #[trigger] code[j] == Instr::Label(label_of(code[i])->Some_0)
}

/// The lines `lo` to `hi - 1` use labels of their own: the numbers lie
/// between `lo` and `hi`, none is defined twice, and every jump goes to one
/// that is defined.
pub open spec fn well_labelled(code: Seq<Instr>, lo: int, hi: int) -> bool {
    &&& labels_between(code, lo, hi, lo, hi, lo)
    &&& defined_once(code, lo, hi)
    &&& jumps_land(code, lo, hi)
}

/// The lines `lo` to `hi - 1` are the same in both buffers.
pub open spec fn same_lines(a: Seq<Instr>, b: Seq<Instr>, lo: int, hi: int) -> bool {
    forall|i: int| lo <= i < hi ==> #[trigger] a[i] == #[trigger] b[i]
}

proof fn lemma_well_labelled_same(a: Seq<Instr>, b: Seq<Instr>, lo: int, hi: int)
    requires
        same_lines(a, b, lo, hi),
        well_labelled(a, lo, hi),
    ensures
        well_labelled(b, lo, hi),
{
    reveal(labels_between);
    reveal(defined_once);
    reveal(jumps_land);
    assert forall|i: int| lo <= i < hi && (#[trigger] b[i]) is Branch implies exists|j: int|
        lo <= j < hi && #[trigger] b[j] == Instr::Label(label_of(b[i])->Some_0) by {
        assert(a[i] == b[i]);
        let j = choose|j: int|
            lo <= j < hi && #[trigger] a[j] == Instr::Label(label_of(a[i])->Some_0);
        assert(a[j] == b[j]);
    }
    assert forall|i: int, j: int|
        lo <= i < hi && lo <= j < hi && (#[trigger] b[i]) is Label && b[i] == (
        #[trigger] b[j]) implies i == j by {
        assert(a[i] == b[i]);
        assert(a[j] == b[j]);
    }
    assert forall|i: int| lo <= i < hi implies (label_of(#[trigger] b[i]) matches Some(n) ==> lo
        <= n < hi) by {
        assert(a[i] == b[i]);
    }
}

proof fn lemma_label_free_same(a: Seq<Instr>, b: Seq<Instr>, lo: int, hi: int)
    requires
        same_lines(a, b, lo, hi),
        label_free(a, lo, hi),
    ensures
        label_free(b, lo, hi),
{
    reveal(label_free);
    assert forall|i: int| lo <= i < hi implies label_of(#[trigger] b[i]) is None by {
        assert(a[i] == b[i]);
    }
}

/// Two stretches of lines, one behind the other, that each use labels of
/// their own do so together.
proof fn lemma_well_labelled_join(code: Seq<Instr>, lo: int, mid: int, hi: int)
    requires
        lo <= mid <= hi,
        well_labelled(code, lo, mid),
        well_labelled(code, mid, hi),
    ensures
        well_labelled(code, lo, hi),
{
    reveal(labels_between);
    reveal(defined_once);
    reveal(jumps_land);
    assert forall|i: int| lo <= i < hi && (#[trigger] code[i]) is Branch implies exists|j: int|
        lo <= j < hi && #[trigger] code[j] == Instr::Label(label_of(code[i])->Some_0) by {
        if i < mid {
            let j = choose|j: int|
                lo <= j < mid && #[trigger] code[j] == Instr::Label(label_of(code[i])->Some_0);
            assert(lo <= j < hi);
        } else {
            let j = choose|j: int|
                mid <= j < hi && #[trigger] code[j] == Instr::Label(label_of(code[i])->Some_0);
            assert(lo <= j < hi);
        }
    }
}

/// Lines without labels and jumps use labels of their own, namely none.
proof fn lemma_label_free_well_labelled(code: Seq<Instr>, lo: int, hi: int)
    requires
        label_free(code, lo, hi),
    ensures
        well_labelled(code, lo, hi),
{
    reveal(label_free);
    reveal(labels_between);
    reveal(defined_once);
    reveal(jumps_land);
}

/// Lines without labels before or behind a stretch that uses labels of its
/// own leave it so.
proof fn lemma_well_labelled_widen(code: Seq<Instr>, lo: int, from: int, to: int, hi: int)
    requires
        lo <= from <= to <= hi,
        label_free(code, lo, from),
        well_labelled(code, from, to),
        label_free(code, to, hi),
    ensures
        well_labelled(code, lo, hi),
{
    reveal(label_free);
    reveal(labels_between);
    reveal(defined_once);
    reveal(jumps_land);
    assert forall|i: int| lo <= i < hi && (#[trigger] code[i]) is Branch implies exists|j: int|
        lo <= j < hi && #[trigger] code[j] == Instr::Label(label_of(code[i])->Some_0) by {
        assert(from <= i < to);
        let j = choose|j: int|
            from <= j < to && #[trigger] code[j] == Instr::Label(label_of(code[i])->Some_0);
        assert(lo <= j < hi);
    }
}

/// The code of an expression has no label and no jump.
pub proof fn lemma_expr_label_free(st: State, e: ExprView)
    requires
        lower_expr(st, e) is Ok,
    ensures
        label_free(
            lower_expr(st, e)->Ok_0.code,
            st.code.len() as int,
            lower_expr(st, e)->Ok_0.code.len() as int,
        ),
    decreases e,
{
    reveal(label_free);
    let after = lower_expr(st, e)->Ok_0;
    let lo = st.code.len() as int;
    match e {
        ExprView::Unary(op, right) => {
            lemma_expr_label_free(st, *right);
            lemma_expr_emits(st, *right);
            let s1 = lower_expr(st, *right)->Ok_0;
            lemma_label_free_same(s1.code, after.code, lo, s1.code.len() as int);
        },
        ExprView::Binary(left, op, right) => {
            lemma_expr_label_free(st, *left);
            lemma_expr_emits(st, *left);
            let s1 = lower_expr(st, *left)->Ok_0;
            lemma_expr_label_free(s1, *right);
            lemma_expr_emits(s1, *right);
            let s2 = lower_expr(s1, *right)->Ok_0;
            lemma_label_free_same(s1.code, after.code, lo, s1.code.len() as int);
            lemma_label_free_same(s2.code, after.code, s1.code.len() as int, s2.code.len() as int);
        },
        ExprView::Compare(left, op, right) => {
            lemma_expr_label_free(st, *left);
            lemma_expr_emits(st, *left);
            let s1 = lower_expr(st, *left)->Ok_0;
            lemma_expr_label_free(s1, *right);
            lemma_expr_emits(s1, *right);
            let s2 = lower_expr(s1, *right)->Ok_0;
            lemma_label_free_same(s1.code, after.code, lo, s1.code.len() as int);
            lemma_label_free_same(s2.code, after.code, s1.code.len() as int, s2.code.len() as int);
        },
        ExprView::FunctionCall(ident, args) => {
            lemma_args_label_free(st, args, 0);
            lemma_args_emit(st, args, 0);
            let moved = lower_args(st, args, 0)->Ok_0;
            lemma_label_free_same(moved.code, after.code, lo, moved.code.len() as int);
        },
        ExprView::ArrayIndex(ident, indexer) => {
            lemma_expr_label_free(st, *indexer);
            lemma_expr_emits(st, *indexer);
            let s1 = lower_expr(st, *indexer)->Ok_0;
            lemma_label_free_same(s1.code, after.code, lo, s1.code.len() as int);
        },
        _ => {},
    }
}

/// The code of the arguments of a call has no label and no jump.
pub proof fn lemma_args_label_free(st: State, args: Seq<ExprView>, i: nat)
    requires
        lower_args(st, args, i) is Ok,
    ensures
        label_free(
            lower_args(st, args, i)->Ok_0.code,
            st.code.len() as int,
            lower_args(st, args, i)->Ok_0.code.len() as int,
        ),
    decreases args, args.len() - i,
{
    reveal(label_free);
    if i < args.len() {
        let after = lower_args(st, args, i)->Ok_0;
        let arg = args[i as int];
        lemma_expr_label_free(st, arg);
        lemma_expr_emits(st, arg);
        let s1 = lower_expr(st, arg)->Ok_0;
        let s2 = pass_argument(s1, arg is String, i);
        lemma_args_label_free(s2, args, i + 1);
        lemma_args_emit(s2, args, i + 1);
        lemma_label_free_same(s1.code, s2.code, st.code.len() as int, s1.code.len() as int);
        lemma_label_free_same(s2.code, after.code, st.code.len() as int, s2.code.len() as int);
    }
}

proof fn lemma_declare_label_free(st: State, v: DeclareView)
    requires
        lower_declare(st, v) is Ok,
    ensures
        label_free(
            lower_declare(st, v)->Ok_0.code,
            st.code.len() as int,
            lower_declare(st, v)->Ok_0.code.len() as int,
        ),
{
    reveal(label_free);
    let after = lower_declare(st, v)->Ok_0;
    let (size, item_size) = declared_sizes(v.v_type)->Ok_0;
    let grown = State { mem_offset: st.mem_offset + size, ..st };
    match v.init_value {
        Some(init) => {
            lemma_expr_label_free(grown, init);
            lemma_expr_emits(grown, init);
            let s1 = lower_expr(grown, init)->Ok_0;
            lemma_label_free_same(s1.code, after.code, st.code.len() as int, s1.code.len() as int);
        },
        None => {},
    }
}

proof fn lemma_assign_label_free(st: State, left: ExprView, op: AssginOp, right: ExprView)
    requires
        lower_assign(st, left, op, right) is Ok,
    ensures
        label_free(
            lower_assign(st, left, op, right)->Ok_0.code,
            st.code.len() as int,
            lower_assign(st, left, op, right)->Ok_0.code.len() as int,
        ),
{
    reveal(label_free);
    let after = lower_assign(st, left, op, right)->Ok_0;
    let lo = st.code.len() as int;
    lemma_expr_label_free(st, right);
    lemma_expr_emits(st, right);
    let s1 = lower_expr(st, right)->Ok_0;
    match left {
        ExprView::ArrayIndex(ident, indexer) => {
            lemma_expr_label_free(s1, *indexer);
            lemma_expr_emits(s1, *indexer);
            let s2 = lower_expr(s1, *indexer)->Ok_0;
            lemma_label_free_same(s1.code, after.code, lo, s1.code.len() as int);
            lemma_label_free_same(s2.code, after.code, s1.code.len() as int, s2.code.len() as int);
        },
        _ => {
            lemma_label_free_same(s1.code, after.code, lo, s1.code.len() as int);
        },
    }
}

proof fn lemma_inline_label_free(st: State, lines: Seq<Seq<char>>, i: nat)
    requires
        lower_inline(st, lines, i) is Ok,
    ensures
        label_free(
            lower_inline(st, lines, i)->Ok_0.code,
            st.code.len() as int,
            lower_inline(st, lines, i)->Ok_0.code.len() as int,
        ),
    decreases lines.len() - i,
{
    reveal(label_free);
    if i < lines.len() {
        let after = lower_inline(st, lines, i)->Ok_0;
        let text = substitute(st, lines[i as int])->Ok_0;
        let s1 = st.emit(Instr::Inline(text));
        lemma_inline_label_free(s1, lines, i + 1);
        lemma_inline_advances(s1, lines, i + 1);
        assert(after.code[st.code.len() as int] == s1.code[st.code.len() as int]);
    }
}

/// The lines `lo` to `hi - 1` are a level of an `if` chain with the exit
/// label `exit`, which lies before them: they define `exit`, and but for it
/// they use labels of their own.
pub open spec fn chain_labelled(code: Seq<Instr>, lo: int, hi: int, exit: nat) -> bool {
    &&& labels_between(code, lo, hi, lo + 1, hi, exit as int)
    &&& defined_once(code, lo, hi)
    &&& jumps_land(code, lo, hi)
    &&& defines(code, lo, hi, exit)
}

/// The code of a statement uses labels of its own.
pub proof fn lemma_stmt_labels(st: State, s: StmtView)
    requires
        lower_stmt(st, s) is Ok,
    ensures
        well_labelled(
            lower_stmt(st, s)->Ok_0.code,
            st.code.len() as int,
            lower_stmt(st, s)->Ok_0.code.len() as int,
        ),
    decreases s,
{
    let after = lower_stmt(st, s)->Ok_0;
    let lo = st.code.len() as int;
    let hi = after.code.len() as int;
    match s {
        StmtView::VariableDecl(v) => {
            lemma_declare_label_free(st, v);
            lemma_label_free_well_labelled(after.code, lo, hi);
        },
        StmtView::Print(e) => {
            lemma_expr_label_free(st, e);
            lemma_expr_emits(st, e);
            let s1 = lower_expr(st, e)->Ok_0;
            lemma_label_free_same(s1.code, after.code, lo, s1.code.len() as int);
            assert(label_free(after.code, lo, hi)) by {
                reveal(label_free);
            }
            lemma_label_free_well_labelled(after.code, lo, hi);
        },
        StmtView::If(ifs) => {
            lemma_if_labels(st, ifs, st.code.len());
            assert(labels_between(after.code, lo, hi, lo, hi, lo)) by {
                reveal(labels_between);
            }
        },
        StmtView::Assgin(left, op, right) => {
            lemma_assign_label_free(st, left, op, right);
            lemma_label_free_well_labelled(after.code, lo, hi);
        },
        StmtView::While(condition, body) => lemma_while_labels(st, condition, body),
        StmtView::Expr(e) => {
            if e is FunctionCall {
                lemma_expr_label_free(st, e);
                lemma_expr_emits(st, e);
                let s1 = lower_expr(st, e)->Ok_0;
                lemma_label_free_same(s1.code, after.code, lo, s1.code.len() as int);
            }
            assert(label_free(after.code, lo, hi)) by {
                reveal(label_free);
            }
            lemma_label_free_well_labelled(after.code, lo, hi);
        },
        StmtView::Return(e) => {
            lemma_expr_label_free(st, e);
            lemma_expr_emits(st, e);
            let s1 = lower_expr(st, e)->Ok_0;
            lemma_label_free_same(s1.code, after.code, lo, s1.code.len() as int);
            assert(label_free(after.code, lo, hi)) by {
                reveal(label_free);
            }
            lemma_label_free_well_labelled(after.code, lo, hi);
        },
        StmtView::InlineAsm(lines) => {
            lemma_inline_label_free(st, lines, 0);
            lemma_label_free_well_labelled(after.code, lo, hi);
        },
        _ => {},
    }
}

/// The code of the statements of a block uses labels of its own.
pub proof fn lemma_stmts_labels(st: State, stmts: Seq<StmtView>, i: nat)
    requires
        lower_stmts(st, stmts, i) is Ok,
    ensures
        well_labelled(
            lower_stmts(st, stmts, i)->Ok_0.code,
            st.code.len() as int,
            lower_stmts(st, stmts, i)->Ok_0.code.len() as int,
        ),
    decreases stmts, stmts.len() - i,
{
    if i >= stmts.len() {
        assert(label_free(st.code, st.code.len() as int, st.code.len() as int)) by {
            reveal(label_free);
        }
        lemma_label_free_well_labelled(st.code, st.code.len() as int, st.code.len() as int);
    } else {
        let after = lower_stmts(st, stmts, i)->Ok_0;
        let s1 = lower_stmt(st, stmts[i as int])->Ok_0;
        lemma_stmt_labels(st, stmts[i as int]);
        lemma_stmt_advances(st, stmts[i as int]);
        lemma_stmts_labels(s1, stmts, i + 1);
        lemma_stmts_advance(s1, stmts, i + 1);
        lemma_well_labelled_same(s1.code, after.code, st.code.len() as int, s1.code.len() as int);
        lemma_well_labelled_join(
            after.code,
            st.code.len() as int,
            s1.code.len() as int,
            after.code.len() as int,
        );
    }
}

/// The code of a block uses labels of its own.
pub proof fn lemma_block_labels(st: State, b: Seq<StmtView>)
    requires
        lower_block(st, b) is Ok,
    ensures
        well_labelled(
            lower_block(st, b)->Ok_0.code,
            st.code.len() as int,
            lower_block(st, b)->Ok_0.code.len() as int,
        ),
    decreases b, b.len() + 1,
{
    lemma_stmts_labels(open_scope(st), b, 0);
}

/// The code of a loop uses labels of its own.
pub proof fn lemma_while_labels(st: State, condition: ExprView, body: Seq<StmtView>)
    requires
        lower_while(st, condition, body) is Ok,
    ensures
        well_labelled(
            lower_while(st, condition, body)->Ok_0.code,
            st.code.len() as int,
            lower_while(st, condition, body)->Ok_0.code.len() as int,
        ),
    decreases body, body.len() + 2,
{
    let after = lower_while(st, condition, body)->Ok_0;
    let c = after.code;
    let lo = st.code.len() as int;
    let cond = st.code.len();
    let s0 = st.branch(Jump::Always, cond).label(cond + 1);
    lemma_block_labels(s0, body);
    lemma_block_advances(s0, body);
    let s1 = lower_block(s0, body)->Ok_0;
    let a1 = s1.code.len() as int;
    let s2 = s1.label(cond);
    lemma_expr_label_free(s2, condition);
    lemma_expr_emits(s2, condition);
    let s3 = lower_expr(s2, condition)->Ok_0;
    let a3 = s3.code.len() as int;
    lemma_well_labelled_same(s1.code, c, lo + 2, a1);
    lemma_label_free_same(s3.code, c, a1 + 1, a3);
    assert(c[lo] == Instr::Branch(Jump::Always, cond));
    assert(c[lo + 1] == Instr::Label(cond + 1));
    assert(c[a1] == Instr::Label(cond));
    assert(c[a3] == Instr::Pop("rax"@));
    assert(c[a3 + 1] == Instr::Plain("test rax, rax"@));
    assert(c[a3 + 2] == Instr::Branch(Jump::IfNotZero, cond + 1));
    lemma_loop_labelled(c, lo, a1, a3);
}

/// The lines of a loop use labels of their own, if the lines of its body
/// do.
proof fn lemma_loop_labelled(c: Seq<Instr>, lo: int, a1: int, a3: int)
    requires
        0 <= lo,
        lo + 2 <= a1 < a3,
        c[lo] == Instr::Branch(Jump::Always, lo as nat),
        c[lo + 1] == Instr::Label((lo + 1) as nat),
        well_labelled(c, lo + 2, a1),
        c[a1] == Instr::Label(lo as nat),
        label_free(c, a1 + 1, a3),
        label_of(c[a3]) is None,
        label_of(c[a3 + 1]) is None,
        c[a3 + 2] == Instr::Branch(Jump::IfNotZero, (lo + 1) as nat),
    ensures
        well_labelled(c, lo, a3 + 3),
{
    let hi = a3 + 3;
    assert(labels_between(c, lo, hi, lo, hi, lo)) by {
        reveal(labels_between);
        reveal(label_free);
    }
    assert(jumps_land(c, lo, hi)) by {
        reveal(jumps_land);
        reveal(label_free);
        assert forall|i: int| lo <= i < hi && (#[trigger] c[i]) is Branch implies exists|j: int|
            lo <= j < hi && #[trigger] c[j] == Instr::Label(label_of(c[i])->Some_0) by {
            if i == lo {
                assert(c[a1] == Instr::Label(label_of(c[i])->Some_0));
            } else if i == a3 + 2 {
                assert(c[lo + 1] == Instr::Label(label_of(c[i])->Some_0));
            } else {
                assert(lo + 2 <= i < a1);
                let j = choose|j: int|
                    lo + 2 <= j < a1 && #[trigger] c[j] == Instr::Label(label_of(c[i])->Some_0);
                assert(lo <= j < hi);
            }
        }
    }
    assert forall|i: int| lo <= i < hi && (#[trigger] c[i]) is Label implies ({
        let n = label_of(c[i])->Some_0;
        ||| n == lo && i == a1
        ||| n == lo + 1 && i == lo + 1
        ||| lo + 2 <= n < a1 && lo + 2 <= i < a1
    }) by {
        reveal(labels_between);
        reveal(label_free);
    }
    assert(defined_once(c, lo, hi)) by {
        reveal(defined_once);
        assert forall|i: int, j: int|
            lo <= i < hi && lo <= j < hi && (#[trigger] c[i]) is Label && c[i] == (
            #[trigger] c[j]) implies i == j by {
            let n = label_of(c[i])->Some_0;
            if lo + 2 <= n < a1 {
                assert(lo + 2 <= i < a1 && lo + 2 <= j < a1);
            }
        }
    }
}

/// The code of a level of an `if` chain defines the exit label of the chain,
/// which lies before it, and but for that label uses labels of its own.
pub proof fn lemma_if_labels(st: State, ifs: IfView, exit: nat)
    requires
        lower_if(st, ifs, exit) is Ok,
        exit <= st.code.len(),
    ensures
        chain_labelled(
            lower_if(st, ifs, exit)->Ok_0.code,
            st.code.len() as int,
            lower_if(st, ifs, exit)->Ok_0.code.len() as int,
            exit,
        ),
    decreases ifs,
{
    let after = lower_if(st, ifs, exit)->Ok_0;
    let c = after.code;
    let lo = st.code.len() as int;
    let hi = c.len() as int;
    lemma_if_advances(st, ifs, exit);
    lemma_expr_label_free(st, ifs.condition);
    lemma_expr_emits(st, ifs.condition);
    let s0 = lower_expr(st, ifs.condition)->Ok_0;
    let a0 = s0.code.len() as int;
    let next = if *ifs.else_block is NoElse {
        exit
    } else {
        s0.code.len()
    };
    let tested = test_and_branch(s0, Jump::IfZero, next);
    lemma_block_labels(tested, ifs.then_block);
    lemma_block_advances(tested, ifs.then_block);
    let s1 = lower_block(tested, ifs.then_block)->Ok_0;
    let a1 = s1.code.len() as int;
    match *ifs.else_block {
        ElseView::NoElse => {
            assert(begins_with(c, s1.code));
            assert(s1.code[a0] == Instr::Pop("rax"@));
            assert(s1.code[a0 + 1] == Instr::Plain("test rax, rax"@));
            assert(s1.code[a0 + 2] == Instr::Branch(Jump::IfZero, next));
            lemma_label_free_same(s0.code, c, lo, a0);
            lemma_well_labelled_same(s1.code, c, a0 + 3, a1);
            assert(c[a1] == Instr::Label(exit));
            lemma_chain_without_alternative(c, lo, a0, a1, exit);
        },
        ElseView::Else(b) => {
            let s2 = s1.branch(Jump::Always, exit).label(next);
            lemma_block_labels(s2, b);
            lemma_block_advances(s2, b);
            let s3 = lower_block(s2, b)->Ok_0;
            let a2 = s3.code.len() as int;
            assert(begins_with(c, s1.code));
            assert(s1.code[a0] == Instr::Pop("rax"@));
            assert(s1.code[a0 + 1] == Instr::Plain("test rax, rax"@));
            assert(s1.code[a0 + 2] == Instr::Branch(Jump::IfZero, next));
            lemma_label_free_same(s0.code, c, lo, a0);
            lemma_well_labelled_same(s1.code, c, a0 + 3, a1);
            lemma_well_labelled_same(s3.code, c, a1 + 2, a2);
            assert(c[a1] == Instr::Branch(Jump::Always, exit));
            assert(c[a1 + 1] == Instr::Label(a0 as nat));
            assert(c[a2] == Instr::Label(exit));
            lemma_chain_with_else(c, lo, a0, a1, a2, exit);
        },
        ElseView::Elif(inner) => {
            let s2 = s1.branch(Jump::Always, exit).label(next);
            lemma_if_labels(s2, inner, exit);
            lemma_if_advances(s2, inner, exit);
            assert(begins_with(c, s1.code));
            assert(s1.code[a0] == Instr::Pop("rax"@));
            assert(s1.code[a0 + 1] == Instr::Plain("test rax, rax"@));
            assert(s1.code[a0 + 2] == Instr::Branch(Jump::IfZero, next));
            lemma_label_free_same(s0.code, c, lo, a0);
            lemma_well_labelled_same(s1.code, c, a0 + 3, a1);
            assert(c[a1] == Instr::Branch(Jump::Always, exit));
            assert(c[a1 + 1] == Instr::Label(a0 as nat));
            lemma_chain_with_elif(c, lo, a0, a1, hi, exit);
        },
    }
}

/// A level without an alternative: the condition, the test, the block, and
/// the exit label.
proof fn lemma_chain_without_alternative(c: Seq<Instr>, lo: int, a0: int, a1: int, exit: nat)
    requires
        exit <= lo <= a0,
        a0 + 3 <= a1,
        label_free(c, lo, a0),
        label_of(c[a0]) is None,
        label_of(c[a0 + 1]) is None,
        c[a0 + 2] == Instr::Branch(Jump::IfZero, exit),
        well_labelled(c, a0 + 3, a1),
        c[a1] == Instr::Label(exit),
    ensures
        chain_labelled(c, lo, a1 + 1, exit),
{
    let hi = a1 + 1;
    assert(defines(c, lo, hi, exit)) by {
        reveal(defines);
    }
    assert(labels_between(c, lo, hi, lo + 1, hi, exit as int)) by {
        reveal(labels_between);
        reveal(label_free);
    }
    assert(jumps_land(c, lo, hi)) by {
        reveal(jumps_land);
        reveal(label_free);
        assert forall|i: int| lo <= i < hi && (#[trigger] c[i]) is Branch implies exists|j: int|
            lo <= j < hi && #[trigger] c[j] == Instr::Label(label_of(c[i])->Some_0) by {
            if i == a0 + 2 {
                assert(c[a1] == Instr::Label(label_of(c[i])->Some_0));
            } else {
                assert(a0 + 3 <= i < a1);
                let j = choose|j: int|
                    a0 + 3 <= j < a1 && #[trigger] c[j] == Instr::Label(label_of(c[i])->Some_0);
                assert(lo <= j < hi);
            }
        }
    }
    assert forall|i: int| lo <= i < hi && (#[trigger] c[i]) is Label implies ({
        let n = label_of(c[i])->Some_0;
        ||| n == exit && i == a1
        ||| a0 + 3 <= n < a1 && a0 + 3 <= i < a1
    }) by {
        reveal(labels_between);
        reveal(label_free);
    }
    assert(defined_once(c, lo, hi)) by {
        reveal(defined_once);
        assert forall|i: int, j: int|
            lo <= i < hi && lo <= j < hi && (#[trigger] c[i]) is Label && c[i] == (
            #[trigger] c[j]) implies i == j by {
            let n = label_of(c[i])->Some_0;
            if a0 + 3 <= n < a1 {
                assert(a0 + 3 <= i < a1 && a0 + 3 <= j < a1);
            }
        }
    }
}

/// A level with an `else`: behind the block come the jump to the exit, the
/// label of the alternative, the other block, and the exit label.
proof fn lemma_chain_with_else(c: Seq<Instr>, lo: int, a0: int, a1: int, a2: int, exit: nat)
    requires
        exit <= lo < a0,
        a0 + 3 <= a1,
        a1 + 2 <= a2,
        label_free(c, lo, a0),
        label_of(c[a0]) is None,
        label_of(c[a0 + 1]) is None,
        c[a0 + 2] == Instr::Branch(Jump::IfZero, a0 as nat),
        well_labelled(c, a0 + 3, a1),
        c[a1] == Instr::Branch(Jump::Always, exit),
        c[a1 + 1] == Instr::Label(a0 as nat),
        well_labelled(c, a1 + 2, a2),
        c[a2] == Instr::Label(exit),
    ensures
        chain_labelled(c, lo, a2 + 1, exit),
{
    let hi = a2 + 1;
    assert(defines(c, lo, hi, exit)) by {
        reveal(defines);
    }
    assert(labels_between(c, lo, hi, lo + 1, hi, exit as int)) by {
        reveal(labels_between);
        reveal(label_free);
    }
    assert(jumps_land(c, lo, hi)) by {
        reveal(jumps_land);
        reveal(label_free);
        assert forall|i: int| lo <= i < hi && (#[trigger] c[i]) is Branch implies exists|j: int|
            lo <= j < hi && #[trigger] c[j] == Instr::Label(label_of(c[i])->Some_0) by {
            if i == a0 + 2 {
                assert(c[a1 + 1] == Instr::Label(label_of(c[i])->Some_0));
            } else if i == a1 {
                assert(c[a2] == Instr::Label(label_of(c[i])->Some_0));
            } else if a0 + 3 <= i < a1 {
                let j = choose|j: int|
                    a0 + 3 <= j < a1 && #[trigger] c[j] == Instr::Label(label_of(c[i])->Some_0);
                assert(lo <= j < hi);
            } else {
                assert(a1 + 2 <= i < a2);
                let j = choose|j: int|
                    a1 + 2 <= j < a2 && #[trigger] c[j] == Instr::Label(label_of(c[i])->Some_0);
                assert(lo <= j < hi);
            }
        }
    }
    assert forall|i: int| lo <= i < hi && (#[trigger] c[i]) is Label implies ({
        let n = label_of(c[i])->Some_0;
        ||| n == exit && i == a2
        ||| n == a0 && i == a1 + 1
        ||| a0 + 3 <= n < a1 && a0 + 3 <= i < a1
        ||| a1 + 2 <= n < a2 && a1 + 2 <= i < a2
    }) by {
        reveal(labels_between);
        reveal(label_free);
    }
    assert(defined_once(c, lo, hi)) by {
        reveal(defined_once);
        assert forall|i: int, j: int|
            lo <= i < hi && lo <= j < hi && (#[trigger] c[i]) is Label && c[i] == (
            #[trigger] c[j]) implies i == j by {
            let n = label_of(c[i])->Some_0;
            if a0 + 3 <= n < a1 {
                assert(a0 + 3 <= i < a1 && a0 + 3 <= j < a1);
            } else if a1 + 2 <= n < a2 {
                assert(a1 + 2 <= i < a2 && a1 + 2 <= j < a2);
            }
        }
    }
}

/// A level with an `else if`: behind the block come the jump to the exit,
/// the label of the alternative, and the next level of the chain.
proof fn lemma_chain_with_elif(c: Seq<Instr>, lo: int, a0: int, a1: int, hi: int, exit: nat)
    requires
        exit <= lo < a0,
        a0 + 3 <= a1,
        a1 + 2 <= hi,
        label_free(c, lo, a0),
        label_of(c[a0]) is None,
        label_of(c[a0 + 1]) is None,
        c[a0 + 2] == Instr::Branch(Jump::IfZero, a0 as nat),
        well_labelled(c, a0 + 3, a1),
        c[a1] == Instr::Branch(Jump::Always, exit),
        c[a1 + 1] == Instr::Label(a0 as nat),
        chain_labelled(c, a1 + 2, hi, exit),
    ensures
        chain_labelled(c, lo, hi, exit),
{
    let inner_exit = choose|j: int| a1 + 2 <= j < hi && #[trigger] c[j] == Instr::Label(exit);
    assert(a1 + 2 <= inner_exit < hi && c[inner_exit] == Instr::Label(exit)) by {
        reveal(defines);
    }
    assert(defines(c, lo, hi, exit)) by {
        reveal(defines);
    }
    assert(labels_between(c, lo, hi, lo + 1, hi, exit as int)) by {
        reveal(labels_between);
        reveal(label_free);
    }
    assert(jumps_land(c, lo, hi)) by {
        reveal(jumps_land);
        reveal(label_free);
        assert forall|i: int| lo <= i < hi && (#[trigger] c[i]) is Branch implies exists|j: int|
            lo <= j < hi && #[trigger] c[j] == Instr::Label(label_of(c[i])->Some_0) by {
            if i == a0 + 2 {
                assert(c[a1 + 1] == Instr::Label(label_of(c[i])->Some_0));
            } else if i == a1 {
                assert(c[inner_exit] == Instr::Label(label_of(c[i])->Some_0));
            } else if a0 + 3 <= i < a1 {
                let j = choose|j: int|
                    a0 + 3 <= j < a1 && #[trigger] c[j] == Instr::Label(label_of(c[i])->Some_0);
                assert(lo <= j < hi);
            } else {
                assert(a1 + 2 <= i < hi);
                let j = choose|j: int|
                    a1 + 2 <= j < hi && #[trigger] c[j] == Instr::Label(label_of(c[i])->Some_0);
                assert(lo <= j < hi);
            }
        }
    }
    assert forall|i: int| lo <= i < hi && (#[trigger] c[i]) is Label implies ({
        let n = label_of(c[i])->Some_0;
        ||| n == a0 && i == a1 + 1
        ||| a0 + 3 <= n < a1 && a0 + 3 <= i < a1
        ||| (n == exit || a1 + 2 < n < hi) && a1 + 2 <= i < hi
    }) by {
        reveal(labels_between);
        reveal(label_free);
    }
    assert(defined_once(c, lo, hi)) by {
        reveal(defined_once);
        assert forall|i: int, j: int|
            lo <= i < hi && lo <= j < hi && (#[trigger] c[i]) is Label && c[i] == (
            #[trigger] c[j]) implies i == j by {
            let n = label_of(c[i])->Some_0;
            if a0 + 3 <= n < a1 {
                assert(a0 + 3 <= i < a1 && a0 + 3 <= j < a1);
            } else if n != a0 {
                assert(a1 + 2 <= i < hi && a1 + 2 <= j < hi);
            }
        }
    }
}

proof fn lemma_params_label_free(st: State, args: Seq<(Seq<char>, VariableType)>, i: nat)
    requires
        lower_params(st, args, i) is Ok,
    ensures
        label_free(
            lower_params(st, args, i)->Ok_0.code,
            st.code.len() as int,
            lower_params(st, args, i)->Ok_0.code.len() as int,
        ),
    decreases args.len() - i,
{
    reveal(label_free);
    if i < args.len() {
        let after = lower_params(st, args, i)->Ok_0;
        let next = bind_param(st, args[i as int].0, i);
        lemma_params_label_free(next, args, i + 1);
        lemma_params_advance(next, args, i + 1);
        assert(after.code[st.code.len() as int] == next.code[st.code.len() as int]);
    }
}

/// The code of a function uses labels of its own: every local label that
/// it defines or jumps to is numbered by a position within the function,
/// none is defined twice, and every jump goes to one that is defined.
pub proof fn lemma_function_labels(st: State, f: FunctionView)
    requires
        lower_function(st, f) is Ok,
    ensures
        well_labelled(
            lower_function(st, f)->Ok_0.code,
            st.code.len() as int,
            lower_function(st, f)->Ok_0.code.len() as int,
        ),
{
    let after = lower_function(st, f)->Ok_0;
    let c = after.code;
    let lo = st.code.len() as int;
    let hi = c.len() as int;
    let begun = begin_function(st, f.ident);
    lemma_params_label_free(begun, f.args, 0);
    lemma_params_advance(begun, f.args, 0);
    let bound = lower_params(begun, f.args, 0)->Ok_0;
    let b1 = bound.code.len() as int;
    lemma_block_labels(bound, f.block);
    lemma_block_advances(bound, f.block);
    let body = lower_block(bound, f.block)->Ok_0;
    let e1 = body.code.len() as int;
    assert(same_lines(body.code, c, lo + 4, e1));
    lemma_well_labelled_same(body.code, c, b1, e1);
    assert(label_free(c, lo, b1)) by {
        reveal(label_free);
        assert forall|i: int| lo <= i < b1 implies label_of(#[trigger] c[i]) is None by {
            if i >= lo + 4 {
                assert(c[i] == body.code[i]);
                assert(body.code[i] == bound.code[i]);
            } else if after.vars.len() == 0 {
                assert(c[i] == begun.code[i]);
            }
        }
    }
    assert(label_free(c, e1, hi)) by {
        reveal(label_free);
    }
    lemma_well_labelled_widen(c, lo, b1, e1, hi);
}

/// Every local label that a jump of a function refers to is defined exactly
/// once in that function. Line `i` is a jump of the function that `f` is
/// lowered to; line `j` is the one definition of its label.
pub proof fn lemma_jump_target_defined_once(st: State, f: FunctionView, i: int) -> (j: int)
    requires
        lower_function(st, f) is Ok,
        st.code.len() <= i < lower_function(st, f)->Ok_0.code.len(),
        lower_function(st, f)->Ok_0.code[i] is Branch,
    ensures
        ({
            let code = lower_function(st, f)->Ok_0.code;
            let lo = st.code.len() as int;
            let hi = code.len() as int;
            let target = Instr::Label(label_of(code[i])->Some_0);
            &&& lo <= j < hi
            &&& code[j] == target
            &&& forall|k: int| lo <= k < hi && #[trigger] code[k] == target ==> k == j
        }),
{
    lemma_function_labels(st, f);
    reveal(jumps_land);
    reveal(defined_once);
    let code = lower_function(st, f)->Ok_0.code;
    let lo = st.code.len() as int;
    let hi = code.len() as int;
    let target = Instr::Label(label_of(code[i])->Some_0);
    let j = choose|j: int| lo <= j < hi && #[trigger] code[j] == target;
    j
}

/// Labels of different numbers are defined by different lines of text.
pub proof fn lemma_label_lines_differ(n: nat, m: nat)
    requires
        Instr::Label(n).text() == Instr::Label(m).text(),
    ensures
        n == m,
{
    reveal_strlit("    ");
    reveal_strlit(".L");
    reveal_strlit(":");
    reveal_strlit("\n");
    let a = decimal(n);
    let b = decimal(m);
    let left = Instr::Label(n).text();
    let right = Instr::Label(m).text();
    assert(left.len() == a.len() + 8);
    assert(right.len() == b.len() + 8);
    assert forall|k: int| 0 <= k < a.len() implies a[k] == b[k] by {
        assert(left[k + 6] == a[k]);
        assert(right[k + 6] == b[k]);
    }
    assert(a =~= b);
    lemma_decimal_injective(n, m);
}

/// A function is added behind what the buffer holds.
pub proof fn lemma_function_extends(st: State, f: FunctionView)
    requires
        lower_function(st, f) is Ok,
    ensures
        begins_with(lower_function(st, f)->Ok_0.code, st.code),
{
    let begun = begin_function(st, f.ident);
    lemma_params_advance(begun, f.args, 0);
    let bound = lower_params(begun, f.args, 0)->Ok_0;
    lemma_block_advances(bound, f.block);
}

/// The lines that the items of a file add use labels of their own.
pub proof fn lemma_items_labels(
    st: State,
    sources: Seq<FileView>,
    items: Seq<ItemView>,
    i: nat,
    exports: Option<Seq<Seq<char>>>,
    depth: nat,
)
    requires
        lower_items(st, sources, items, i, exports, depth) is Ok,
    ensures
        begins_with(lower_items(st, sources, items, i, exports, depth)->Ok_0.code, st.code),
        well_labelled(
            lower_items(st, sources, items, i, exports, depth)->Ok_0.code,
            st.code.len() as int,
            lower_items(st, sources, items, i, exports, depth)->Ok_0.code.len() as int,
        ),
    decreases depth, 1nat, items.len() - i,
{
    let lo = st.code.len() as int;
    if i >= items.len() {
        assert(label_free(st.code, lo, lo)) by {
            reveal(label_free);
        }
        lemma_label_free_well_labelled(st.code, lo, lo);
    } else {
        let after = lower_items(st, sources, items, i, exports, depth)->Ok_0;
        let then = lower_item(st, sources, items[i as int], exports, depth);
        let s1 = then->Ok_0;
        match items[i as int] {
            ItemView::StaticVar(_) => {},
            ItemView::Func(f) => {
                if is_exported(exports, f.ident) {
                    lemma_function_labels(register(st, f), f);
                    lemma_function_extends(register(st, f), f);
                } else {
                    assert(label_free(st.code, lo, lo)) by {
                        reveal(label_free);
                    }
                    lemma_label_free_well_labelled(st.code, lo, lo);
                }
            },
            ItemView::Import(path, list) => {
                lemma_file_labels(
                    st,
                    sources,
                    import_path(path),
                    Some(list),
                    (depth - 1) as nat,
                );
            },
        }
        lemma_items_labels(s1, sources, items, i + 1, exports, depth);
        lemma_well_labelled_same(s1.code, after.code, lo, s1.code.len() as int);
        lemma_well_labelled_join(after.code, lo, s1.code.len() as int, after.code.len() as int);
    }
}

/// The lines that a file adds use labels of their own.
pub proof fn lemma_file_labels(
    st: State,
    sources: Seq<FileView>,
    path: Seq<char>,
    exports: Option<Seq<Seq<char>>>,
    depth: nat,
)
    requires
        lower_file(st, sources, path, exports, depth) is Ok,
    ensures
        begins_with(lower_file(st, sources, path, exports, depth)->Ok_0.code, st.code),
        well_labelled(
            lower_file(st, sources, path, exports, depth)->Ok_0.code,
            st.code.len() as int,
            lower_file(st, sources, path, exports, depth)->Ok_0.code.len() as int,
        ),
    decreases depth, 2nat, 0nat,
{
    let file = source_from(sources, path, 0)->Some_0;
    lemma_items_labels(st, sources, file.items, 0, exports, depth);
}

/// No label is defined twice in the whole output of a compilation, and
/// every jump in it goes to a label that is defined.
pub proof fn lemma_program_labels(sources: Seq<FileView>, path: Seq<char>)
    requires
        lower_program(State::initial(), sources, path) is Ok,
    ensures
        ({
            let code = lower_program(State::initial(), sources, path)->Ok_0.code;
            defined_once(code, 0, code.len() as int) && jumps_land(code, 0, code.len() as int)
        }),
{
    lemma_file_labels(State::initial(), sources, path, None, sources.len());
}

} // verus!
