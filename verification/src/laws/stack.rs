//! The evaluation stack: an expression leaves one word, a statement none.

use vstd::prelude::*;
use crate::instr::{Instr, Jump};
use crate::laws::growth::{
    begins_with, lemma_args_emit, lemma_block_advances, lemma_expr_emits, lemma_if_advances,
    lemma_inline_advances, lemma_stmt_advances, lemma_stmts_advance,
};
use crate::lowering::expr::{lower_args, lower_expr, pass_argument};
use crate::lowering::stmt::{
    declared_sizes, lower_assign, lower_block, lower_declare, lower_if, lower_inline, lower_stmt,
    lower_stmts, lower_while, open_scope, substitute, test_and_branch,
};
use crate::parser::expr::ExprView;
use crate::parser::stmt::{AssginOp, DeclareView, ElseView, IfView, StmtView};
use crate::state::{signature_in, Signature, State};

verus! {

/// The pushes less the pops among the lines `lo` to `hi - 1` of `code`.
pub open spec fn net_effect(code: Seq<Instr>, lo: int, hi: int) -> int
    decreases hi - lo,
{
    if hi <= lo {
        0
    } else {
        net_effect(code, lo, hi - 1) + code[hi - 1].stack_effect()
    }
}

/// The pushes less the pops among the lines that `after` has and `before`
/// has not.
pub open spec fn pushed(before: State, after: State) -> int {
    net_effect(after.code, before.code.len() as int, after.code.len() as int)
}

/// The pushes less the pops of two stretches of lines, one behind the other,
/// add up.
pub proof fn lemma_net_effect_split(code: Seq<Instr>, lo: int, mid: int, hi: int)
    requires
        lo <= mid <= hi,
    ensures
        net_effect(code, lo, hi) == net_effect(code, lo, mid) + net_effect(code, mid, hi),
    decreases hi - mid,
{
    if mid < hi {
        lemma_net_effect_split(code, lo, mid, hi - 1);
    }
}

/// Lines added to a buffer change nothing about the lines before them.
pub proof fn lemma_net_effect_stable(code: Seq<Instr>, longer: Seq<Instr>, lo: int, hi: int)
    requires
        begins_with(longer, code),
        0 <= lo,
        hi <= code.len(),
    ensures
        net_effect(longer, lo, hi) == net_effect(code, lo, hi),
    decreases hi - lo,
{
    if lo < hi {
        lemma_net_effect_stable(code, longer, lo, hi - 1);
    }
}

/// What two steps push is the sum of what each pushes.
pub proof fn lemma_pushed_sum(a: State, b: State, c: State)
    requires
        begins_with(b.code, a.code),
        begins_with(c.code, b.code),
    ensures
        pushed(a, c) == pushed(a, b) + pushed(b, c),
{
    lemma_net_effect_split(c.code, a.code.len() as int, b.code.len() as int, c.code.len() as int);
    lemma_net_effect_stable(b.code, c.code, a.code.len() as int, b.code.len() as int);
}

/// The words that `e` leaves on the stack: one for a number, a character
/// or a variable, two for a string literal, the result for a call of a
/// function that has one. An operator takes the words of its operands and
/// leaves one; a call takes one word for an argument, two for a string
/// literal.
pub open spec fn words(funcs: Seq<Signature>, e: ExprView) -> int
    decreases e,
{
    match e {
        ExprView::String(_) => 2,
        ExprView::Unary(op, right) => words(funcs, *right),
        ExprView::Binary(left, op, right) => words(funcs, *left) + words(funcs, *right) - 1,
        ExprView::Compare(left, op, right) => words(funcs, *left) + words(funcs, *right) - 1,
        ExprView::FunctionCall(ident, args) => argument_words(funcs, args, 0) + match signature_in(
            funcs,
            ident,
        ) {
            Some(sig) => if sig.has_return {
                1int
            } else {
                0int
            },
            None => 0int,
        },
        ExprView::ArrayIndex(ident, indexer) => words(funcs, *indexer),
        _ => 1,
    }
}

/// The words that the arguments from position `i` on leave behind, each
/// less the words that the move to its register takes.
pub open spec fn argument_words(funcs: Seq<Signature>, args: Seq<ExprView>, i: nat) -> int
    decreases args, args.len() - i,
{
    if i >= args.len() {
        0
    } else {
        words(funcs, args[i as int]) - taken(args[i as int]) + argument_words(funcs, args, i + 1)
    }
}

/// The words that are taken off the stack where `e` is printed or passed to
/// a function: two for a string literal, one for anything else.
pub open spec fn taken(e: ExprView) -> int {
    if e is String {
        2
    } else {
        1
    }
}

/// The words that statement `s` leaves on the stack, which are none where
/// each expression stands where its words are used: one word as an operand,
/// an initial value, a condition, an index, a right side or a result; a
/// string literal under `print` or as an argument; a call as a statement
/// only of a function without a result. Inline assembly is not looked into.
pub open spec fn statement_words(funcs: Seq<Signature>, s: StmtView) -> int
    decreases s,
{
    match s {
        StmtView::VariableDecl(v) => match v.init_value {
            Some(init) => words(funcs, init) - 1,
            None => 0,
        },
        StmtView::Print(e) => words(funcs, e) - taken(e),
        StmtView::If(ifs) => if_words(funcs, ifs),
        StmtView::Assgin(left, op, right) => words(funcs, right) - 1 + match left {
            ExprView::ArrayIndex(ident, indexer) => words(funcs, *indexer) - 1,
            _ => 0,
        },
        StmtView::While(condition, body) => block_words(funcs, body, 0) + words(funcs, condition)
            - 1,
        StmtView::Expr(e) => match e {
            ExprView::FunctionCall(ident, args) => argument_words(funcs, args, 0),
            _ => 0,
        },
        StmtView::Return(e) => words(funcs, e) - 1,
        _ => 0,
    }
}

/// The words that the statements of a block from position `i` on leave.
pub open spec fn block_words(funcs: Seq<Signature>, b: Seq<StmtView>, i: nat) -> int
    decreases b, b.len() - i,
{
    if i >= b.len() {
        0
    } else {
        statement_words(funcs, b[i as int]) + block_words(funcs, b, i + 1)
    }
}

/// The words that an `if` chain leaves.
pub open spec fn if_words(funcs: Seq<Signature>, ifs: IfView) -> int
    decreases ifs,
{
    words(funcs, ifs.condition) - 1 + block_words(funcs, ifs.then_block, 0) + match *ifs.else_block {
        ElseView::NoElse => 0,
        ElseView::Else(b) => block_words(funcs, b, 0),
        ElseView::Elif(inner) => if_words(funcs, inner),
    }
}

/// The code of an expression pushes as many words more than it pops as the
/// expression leaves.
pub proof fn lemma_expression_pushes(st: State, e: ExprView)
    requires
        lower_expr(st, e) is Ok,
    ensures
        pushed(st, lower_expr(st, e)->Ok_0) == words(st.funcs, e),
    decreases e,
{
    reveal_with_fuel(net_effect, 8);
    let after = lower_expr(st, e)->Ok_0;
    match e {
        ExprView::Unary(op, right) => {
            lemma_expression_pushes(st, *right);
            lemma_expr_emits(st, *right);
            let s1 = lower_expr(st, *right)->Ok_0;
            lemma_pushed_sum(st, s1, after);
        },
        ExprView::Binary(left, op, right) => {
            lemma_expression_pushes(st, *left);
            lemma_expr_emits(st, *left);
            let s1 = lower_expr(st, *left)->Ok_0;
            lemma_expression_pushes(s1, *right);
            lemma_expr_emits(s1, *right);
            let s2 = lower_expr(s1, *right)->Ok_0;
            lemma_pushed_sum(st, s1, s2);
            lemma_pushed_sum(st, s2, after);
        },
        ExprView::Compare(left, op, right) => {
            lemma_expression_pushes(st, *left);
            lemma_expr_emits(st, *left);
            let s1 = lower_expr(st, *left)->Ok_0;
            lemma_expression_pushes(s1, *right);
            lemma_expr_emits(s1, *right);
            let s2 = lower_expr(s1, *right)->Ok_0;
            lemma_pushed_sum(st, s1, s2);
            lemma_pushed_sum(st, s2, after);
        },
        ExprView::FunctionCall(ident, args) => {
            lemma_arguments_push(st, args, 0);
            lemma_args_emit(st, args, 0);
            let moved = lower_args(st, args, 0)->Ok_0;
            lemma_pushed_sum(st, moved, after);
        },
        ExprView::ArrayIndex(ident, indexer) => {
            lemma_expression_pushes(st, *indexer);
            lemma_expr_emits(st, *indexer);
            let s1 = lower_expr(st, *indexer)->Ok_0;
            lemma_pushed_sum(st, s1, after);
        },
        _ => {},
    }
}

/// The code of the arguments of a call pushes as many words more than it
/// pops as the arguments leave behind.
pub proof fn lemma_arguments_push(st: State, args: Seq<ExprView>, i: nat)
    requires
        lower_args(st, args, i) is Ok,
    ensures
        pushed(st, lower_args(st, args, i)->Ok_0) == argument_words(st.funcs, args, i),
    decreases args, args.len() - i,
{
    reveal_with_fuel(net_effect, 3);
    if i < args.len() {
        let arg = args[i as int];
        let s1 = lower_expr(st, arg)->Ok_0;
        lemma_expr_emits(st, arg);
        lemma_expression_pushes(st, arg);
        let s2 = pass_argument(s1, arg is String, i);
        lemma_pushed_sum(st, s1, s2);
        lemma_arguments_push(s2, args, i + 1);
        lemma_args_emit(s2, args, i + 1);
        lemma_pushed_sum(st, s2, lower_args(s2, args, i + 1)->Ok_0);
    }
}

proof fn lemma_declare_pushes(st: State, v: DeclareView)
    requires
        lower_declare(st, v) is Ok,
    ensures
        pushed(st, lower_declare(st, v)->Ok_0) == statement_words(
            st.funcs,
            StmtView::VariableDecl(v),
        ),
{
    reveal_with_fuel(net_effect, 3);
    let (size, item_size) = declared_sizes(v.v_type)->Ok_0;
    let grown = State { mem_offset: st.mem_offset + size, ..st };
    match v.init_value {
        Some(init) => {
            lemma_expression_pushes(grown, init);
            lemma_expr_emits(grown, init);
            let s1 = lower_expr(grown, init)->Ok_0;
            lemma_pushed_sum(grown, s1, lower_declare(st, v)->Ok_0);
        },
        None => {},
    }
}

proof fn lemma_assign_pushes(st: State, left: ExprView, op: AssginOp, right: ExprView)
    requires
        lower_assign(st, left, op, right) is Ok,
    ensures
        pushed(st, lower_assign(st, left, op, right)->Ok_0) == statement_words(
            st.funcs,
            StmtView::Assgin(left, op, right),
        ),
{
    reveal_with_fuel(net_effect, 6);
    let after = lower_assign(st, left, op, right)->Ok_0;
    lemma_expression_pushes(st, right);
    lemma_expr_emits(st, right);
    let s1 = lower_expr(st, right)->Ok_0;
    match left {
        ExprView::Variable(v) => {
            lemma_pushed_sum(st, s1, after);
        },
        ExprView::ArrayIndex(ident, indexer) => {
            lemma_expression_pushes(s1, *indexer);
            lemma_expr_emits(s1, *indexer);
            let s2 = lower_expr(s1, *indexer)->Ok_0;
            lemma_pushed_sum(st, s1, s2);
            lemma_pushed_sum(st, s2, after);
        },
        _ => {},
    }
}

proof fn lemma_inline_pushes(st: State, lines: Seq<Seq<char>>, i: nat)
    requires
        lower_inline(st, lines, i) is Ok,
    ensures
        pushed(st, lower_inline(st, lines, i)->Ok_0) == 0,
    decreases lines.len() - i,
{
    reveal_with_fuel(net_effect, 2);
    if i < lines.len() {
        let text = substitute(st, lines[i as int])->Ok_0;
        let s1 = st.emit(Instr::Inline(text));
        lemma_inline_pushes(s1, lines, i + 1);
        lemma_inline_advances(s1, lines, i + 1);
        lemma_pushed_sum(st, s1, lower_inline(s1, lines, i + 1)->Ok_0);
    }
}

/// The code of a statement pushes as many words more than it pops as the
/// statement leaves.
pub proof fn lemma_statement_pushes(st: State, s: StmtView)
    requires
        lower_stmt(st, s) is Ok,
    ensures
        pushed(st, lower_stmt(st, s)->Ok_0) == statement_words(st.funcs, s),
    decreases s,
{
    reveal_with_fuel(net_effect, 8);
    let after = lower_stmt(st, s)->Ok_0;
    match s {
        StmtView::VariableDecl(v) => lemma_declare_pushes(st, v),
        StmtView::Print(e) => {
            lemma_expr_emits(st, e);
            lemma_expression_pushes(st, e);
            lemma_pushed_sum(st, lower_expr(st, e)->Ok_0, after);
        },
        StmtView::If(ifs) => lemma_if_pushes(st, ifs, st.code.len()),
        StmtView::Assgin(left, op, right) => lemma_assign_pushes(st, left, op, right),
        StmtView::While(condition, body) => lemma_while_pushes(st, condition, body),
        StmtView::Expr(e) => {
            if e is FunctionCall {
                lemma_expression_pushes(st, e);
                lemma_expr_emits(st, e);
                lemma_pushed_sum(st, lower_expr(st, e)->Ok_0, after);
            }
        },
        StmtView::Return(e) => {
            lemma_expr_emits(st, e);
            lemma_expression_pushes(st, e);
            lemma_pushed_sum(st, lower_expr(st, e)->Ok_0, after);
        },
        StmtView::InlineAsm(lines) => lemma_inline_pushes(st, lines, 0),
        _ => {},
    }
}

/// The code of the statements of a block from position `i` on pushes as
/// many words more than it pops as they leave.
pub proof fn lemma_statements_push(st: State, stmts: Seq<StmtView>, i: nat)
    requires
        lower_stmts(st, stmts, i) is Ok,
    ensures
        pushed(st, lower_stmts(st, stmts, i)->Ok_0) == block_words(st.funcs, stmts, i),
    decreases stmts, stmts.len() - i,
{
    if i < stmts.len() {
        let s1 = lower_stmt(st, stmts[i as int])->Ok_0;
        lemma_statement_pushes(st, stmts[i as int]);
        lemma_stmt_advances(st, stmts[i as int]);
        lemma_statements_push(s1, stmts, i + 1);
        lemma_stmts_advance(s1, stmts, i + 1);
        lemma_pushed_sum(st, s1, lower_stmts(s1, stmts, i + 1)->Ok_0);
    }
}

/// The code of a block pushes as many words more than it pops as its
/// statements leave.
pub proof fn lemma_block_pushes(st: State, b: Seq<StmtView>)
    requires
        lower_block(st, b) is Ok,
    ensures
        pushed(st, lower_block(st, b)->Ok_0) == block_words(st.funcs, b, 0),
    decreases b, b.len() + 1,
{
    lemma_statements_push(open_scope(st), b, 0);
}

/// The code of an `if` chain pushes as many words more than it pops as the
/// chain leaves.
pub proof fn lemma_if_pushes(st: State, ifs: IfView, exit: nat)
    requires
        lower_if(st, ifs, exit) is Ok,
    ensures
        pushed(st, lower_if(st, ifs, exit)->Ok_0) == if_words(st.funcs, ifs),
    decreases ifs,
{
    reveal_with_fuel(net_effect, 4);
    let after = lower_if(st, ifs, exit)->Ok_0;
    lemma_expression_pushes(st, ifs.condition);
    lemma_expr_emits(st, ifs.condition);
    let s0 = lower_expr(st, ifs.condition)->Ok_0;
    let next = if *ifs.else_block is NoElse {
        exit
    } else {
        s0.code.len()
    };
    let tested = test_and_branch(s0, Jump::IfZero, next);
    lemma_pushed_sum(st, s0, tested);
    lemma_block_pushes(tested, ifs.then_block);
    lemma_block_advances(tested, ifs.then_block);
    let s1 = lower_block(tested, ifs.then_block)->Ok_0;
    lemma_pushed_sum(st, tested, s1);
    match *ifs.else_block {
        ElseView::NoElse => {
            lemma_pushed_sum(st, s1, after);
        },
        ElseView::Else(b) => {
            let s2 = s1.branch(Jump::Always, exit).label(next);
            lemma_pushed_sum(st, s1, s2);
            lemma_block_pushes(s2, b);
            lemma_block_advances(s2, b);
            let s3 = lower_block(s2, b)->Ok_0;
            lemma_pushed_sum(st, s2, s3);
            lemma_pushed_sum(st, s3, after);
        },
        ElseView::Elif(inner) => {
            let s2 = s1.branch(Jump::Always, exit).label(next);
            lemma_pushed_sum(st, s1, s2);
            lemma_if_pushes(s2, inner, exit);
            lemma_if_advances(s2, inner, exit);
            lemma_pushed_sum(st, s2, after);
        },
    }
}

/// The code of a loop pushes as many words more than it pops as the loop
/// leaves.
pub proof fn lemma_while_pushes(st: State, condition: ExprView, body: Seq<StmtView>)
    requires
        lower_while(st, condition, body) is Ok,
    ensures
        pushed(st, lower_while(st, condition, body)->Ok_0) == statement_words(
            st.funcs,
            StmtView::While(condition, body),
        ),
    decreases body, body.len() + 2,
{
    reveal_with_fuel(net_effect, 4);
    let after = lower_while(st, condition, body)->Ok_0;
    let cond = st.code.len();
    let s0 = st.branch(Jump::Always, cond).label(cond + 1);
    lemma_block_pushes(s0, body);
    lemma_block_advances(s0, body);
    let s1 = lower_block(s0, body)->Ok_0;
    lemma_pushed_sum(st, s0, s1);
    let s2 = s1.label(cond);
    lemma_pushed_sum(st, s1, s2);
    lemma_expression_pushes(s2, condition);
    lemma_expr_emits(s2, condition);
    let s3 = lower_expr(s2, condition)->Ok_0;
    lemma_pushed_sum(st, s2, s3);
    lemma_pushed_sum(st, s3, after);
}

/// The evaluation stack is balanced across every statement that leaves no
/// word: its code pops as many words as it pushes.
pub proof fn lemma_statement_balanced(st: State, s: StmtView)
    requires
        lower_stmt(st, s) is Ok,
        statement_words(st.funcs, s) == 0,
    ensures
        pushed(st, lower_stmt(st, s)->Ok_0) == 0,
{
    lemma_statement_pushes(st, s);
}

/// Whether `e` is a value: an expression that leaves one word, as each of
/// its operands does. A string literal is none; a call is one if the
/// function has a result and each argument is a value or a string literal.
pub open spec fn is_value(funcs: Seq<Signature>, e: ExprView) -> bool
    decreases e,
{
    match e {
        ExprView::String(_) => false,
        ExprView::Unary(op, right) => is_value(funcs, *right),
        ExprView::Binary(left, op, right) => is_value(funcs, *left) && is_value(funcs, *right),
        ExprView::Compare(left, op, right) => is_value(funcs, *left) && is_value(funcs, *right),
        ExprView::FunctionCall(ident, args) => {
            &&& signature_in(funcs, ident) matches Some(sig) && sig.has_return
            &&& are_arguments(funcs, args)
        },
        ExprView::ArrayIndex(ident, indexer) => is_value(funcs, *indexer),
        _ => true,
    }
}

/// Whether each of `args` is a value or a string literal.
pub open spec fn are_arguments(funcs: Seq<Signature>, args: Seq<ExprView>) -> bool
    decreases args,
{
    forall|i: int| 0 <= i < args.len() ==> args[i] is String || is_value(funcs, #[trigger] args[i])
}

/// Whether statement `s` is well formed: no string literal stands as an
/// initial value, a condition, an operand, an index, a right side or a
/// result, and every function that is called for a value has one.
pub open spec fn is_well_formed(funcs: Seq<Signature>, s: StmtView) -> bool
    decreases s,
{
    match s {
        StmtView::VariableDecl(v) => v.init_value matches Some(init) ==> is_value(funcs, init),
        StmtView::Print(e) => e is String || is_value(funcs, e),
        StmtView::If(ifs) => if_is_well_formed(funcs, ifs),
        StmtView::Assgin(left, op, right) => {
            &&& is_value(funcs, right)
            &&& left matches ExprView::ArrayIndex(ident, indexer) ==> is_value(funcs, *indexer)
        },
        StmtView::While(condition, body) => {
            &&& is_value(funcs, condition)
            &&& block_is_well_formed(funcs, body)
        },
        StmtView::Expr(e) => e matches ExprView::FunctionCall(ident, args) ==> are_arguments(
            funcs,
            args,
        ),
        StmtView::Return(e) => is_value(funcs, e),
        _ => true,
    }
}

/// Whether each statement of a block is well formed.
pub open spec fn block_is_well_formed(funcs: Seq<Signature>, b: Seq<StmtView>) -> bool
    decreases b, b.len() + 1,
{
    forall|i: int| 0 <= i < b.len() ==> is_well_formed(funcs, #[trigger] b[i])
}

/// Whether the conditions of an `if` chain are values and the statements
/// of its blocks are well formed.
pub open spec fn if_is_well_formed(funcs: Seq<Signature>, ifs: IfView) -> bool
    decreases ifs,
{
    &&& is_value(funcs, ifs.condition)
    &&& block_is_well_formed(funcs, ifs.then_block)
    &&& match *ifs.else_block {
        ElseView::NoElse => true,
        ElseView::Else(b) => block_is_well_formed(funcs, b),
        ElseView::Elif(inner) => if_is_well_formed(funcs, inner),
    }
}

/// A value leaves one word.
pub proof fn lemma_value_is_one_word(funcs: Seq<Signature>, e: ExprView)
    requires
        is_value(funcs, e),
    ensures
        words(funcs, e) == 1,
    decreases e,
{
    match e {
        ExprView::Unary(op, right) => lemma_value_is_one_word(funcs, *right),
        ExprView::Binary(left, op, right) => {
            lemma_value_is_one_word(funcs, *left);
            lemma_value_is_one_word(funcs, *right);
        },
        ExprView::Compare(left, op, right) => {
            lemma_value_is_one_word(funcs, *left);
            lemma_value_is_one_word(funcs, *right);
        },
        ExprView::FunctionCall(ident, args) => lemma_arguments_leave_nothing(funcs, args, 0),
        ExprView::ArrayIndex(ident, indexer) => lemma_value_is_one_word(funcs, *indexer),
        _ => {},
    }
}

/// Arguments that are values or string literals leave nothing behind.
pub proof fn lemma_arguments_leave_nothing(funcs: Seq<Signature>, args: Seq<ExprView>, i: nat)
    requires
        are_arguments(funcs, args),
    ensures
        argument_words(funcs, args, i) == 0,
    decreases args, args.len() - i,
{
    if i < args.len() {
        let arg = args[i as int];
        if arg is String {
            assert(words(funcs, arg) == 2);
        } else {
            assert(is_value(funcs, arg));
            lemma_value_is_one_word(funcs, arg);
        }
        lemma_arguments_leave_nothing(funcs, args, i + 1);
    }
}

/// A well-formed statement leaves no word.
pub proof fn lemma_well_formed_leaves_nothing(funcs: Seq<Signature>, s: StmtView)
    requires
        is_well_formed(funcs, s),
    ensures
        statement_words(funcs, s) == 0,
    decreases s,
{
    match s {
        StmtView::VariableDecl(v) => {
            if let Some(init) = v.init_value {
                lemma_value_is_one_word(funcs, init);
            }
        },
        StmtView::Print(e) => {
            if !(e is String) {
                lemma_value_is_one_word(funcs, e);
            }
        },
        StmtView::If(ifs) => lemma_well_formed_if(funcs, ifs),
        StmtView::Assgin(left, op, right) => {
            lemma_value_is_one_word(funcs, right);
            if let ExprView::ArrayIndex(ident, indexer) = left {
                lemma_value_is_one_word(funcs, *indexer);
            }
        },
        StmtView::While(condition, body) => {
            lemma_value_is_one_word(funcs, condition);
            lemma_well_formed_block(funcs, body, 0);
        },
        StmtView::Expr(e) => {
            if let ExprView::FunctionCall(ident, args) = e {
                lemma_arguments_leave_nothing(funcs, args, 0);
            }
        },
        StmtView::Return(e) => lemma_value_is_one_word(funcs, e),
        _ => {},
    }
}

/// The statements of a well-formed block leave no word.
pub proof fn lemma_well_formed_block(funcs: Seq<Signature>, b: Seq<StmtView>, i: nat)
    requires
        block_is_well_formed(funcs, b),
    ensures
        block_words(funcs, b, i) == 0,
    decreases b, b.len() - i,
{
    if i < b.len() {
        lemma_well_formed_leaves_nothing(funcs, b[i as int]);
        lemma_well_formed_block(funcs, b, i + 1);
    }
}

/// A well-formed `if` chain leaves no word.
pub proof fn lemma_well_formed_if(funcs: Seq<Signature>, ifs: IfView)
    requires
        if_is_well_formed(funcs, ifs),
    ensures
        if_words(funcs, ifs) == 0,
    decreases ifs,
{
    lemma_value_is_one_word(funcs, ifs.condition);
    lemma_well_formed_block(funcs, ifs.then_block, 0);
    match *ifs.else_block {
        ElseView::NoElse => {},
        ElseView::Else(b) => lemma_well_formed_block(funcs, b, 0),
        ElseView::Elif(inner) => lemma_well_formed_if(funcs, inner),
    }
}

/// The evaluation stack is balanced across every well-formed statement,
/// whatever its kind: its code pops as many words as it pushes. A call
/// that is a statement is among them, with or without a result; so is
/// `print` of a string literal, which pushes two words and pops two.
pub proof fn lemma_well_formed_balanced(st: State, s: StmtView)
    requires
        lower_stmt(st, s) is Ok,
        is_well_formed(st.funcs, s),
    ensures
        pushed(st, lower_stmt(st, s)->Ok_0) == 0,
{
    lemma_well_formed_leaves_nothing(st.funcs, s);
    lemma_statement_pushes(st, s);
}

} // verus!
