//! Frame slots and the variables that name them.

use vstd::prelude::*;
use crate::instr::Instr;
use crate::laws::growth::{emitted, lemma_block_advances, lemma_expr_emits, lemma_params_advance};
use crate::lowering::expr::{lower_args, lower_expr, pass_argument};
use crate::lowering::function::{
    begin_function, bind_param, frame_size, is_power_of_two, lemma_frame_size, lower_function,
    lower_params,
};
use crate::parser::expr::ExprView;
use crate::parser::function::FunctionView;
use crate::parser::stmt::VariableType;
use crate::state::State;
use crate::text::decimal;

verus! {

/// Every slot of a function lies within the frame that its prologue takes:
/// where a function has locals, the third line behind its entry label is
/// `sub rsp, K`, K is a power of two above the bytes of all locals, and
/// `offset + size <= K` holds of each of its slots.
pub proof fn lemma_slots_within_frame(st: State, f: FunctionView)
    requires
        lower_function(st, f) is Ok,
    ensures
        ({
            let s = lower_function(st, f)->Ok_0;
            let k = frame_size(s.mem_offset);
            s.vars.len() > 0 ==> {
                &&& st.code.len() + 3 < s.code.len()
                &&& s.code[st.code.len() as int + 3] == Instr::Plain("sub rsp, "@ + decimal(k))
                &&& is_power_of_two(k)
                &&& s.mem_offset < k
                &&& forall|i: int|
                    0 <= i < s.vars.len() ==> (#[trigger] s.vars[i]).slot.below() <= k
            }
        }),
{
    let s = lower_function(st, f)->Ok_0;
    let begun = begin_function(st, f.ident);
    lemma_params_advance(begun, f.args, 0);
    let bound = lower_params(begun, f.args, 0)->Ok_0;
    lemma_block_advances(bound, f.block);
    if s.vars.len() > 0 {
        lemma_frame_size(s.mem_offset);
        assert forall|i: int| 0 <= i < s.vars.len() implies (#[trigger] s.vars[i]).slot.below()
            <= frame_size(s.mem_offset) by {
            assert(s.vars[i].slot.fits(s.mem_offset));
        }
    }
}

/// The parameters of a function take the first slots of its frame, in
/// the order of declaration: the one at position `k` is the slot of
/// number `k`, eight bytes behind the first `8 * k`, in the function scope.
pub proof fn lemma_parameters_first(st: State, f: FunctionView, k: int)
    requires
        lower_params(begin_function(st, f.ident), f.args, 0) is Ok,
        0 <= k < f.args.len(),
    ensures
        ({
            let bound = lower_params(begin_function(st, f.ident), f.args, 0)->Ok_0;
            &&& bound.vars.len() == f.args.len()
            &&& bound.vars[k].scope == 0
            &&& bound.vars[k].slot.ident == f.args[k].0
            &&& bound.vars[k].slot.offset == 8 * k
            &&& bound.vars[k].slot.size == 8
            &&& !bound.vars[k].slot.is_mut
        }),
{
    let begun = begin_function(st, f.ident);
    lemma_parameters_from(begun, begun, f.args, 0);
}

/// The parameters from position `i` on take the slots from number `i` on.
/// `first` is the state before the first parameter, `st` the one before
/// parameter `i`.
proof fn lemma_parameters_from(
    first: State,
    st: State,
    args: Seq<(Seq<char>, VariableType)>,
    i: nat,
)
    requires
        first.vars.len() == 0,
        first.mem_offset == 0,
        first.scopes == seq![0nat],
        st.scopes == first.scopes,
        st.vars.len() == i,
        st.mem_offset == 8 * i,
        i <= args.len(),
        lower_params(st, args, i) is Ok,
        forall|k: int|
            0 <= k < i ==> {
                let b = #[trigger] st.vars[k];
                b.scope == 0 && b.slot.ident == args[k].0 && b.slot.offset == 8 * k
                    && b.slot.size == 8 && !b.slot.is_mut
            },
    ensures
        ({
            let bound = lower_params(st, args, i)->Ok_0;
            &&& bound.vars.len() == args.len()
            &&& forall|k: int|
                0 <= k < args.len() ==> {
                    let b = #[trigger] bound.vars[k];
                    b.scope == 0 && b.slot.ident == args[k].0 && b.slot.offset == 8 * k
                        && b.slot.size == 8 && !b.slot.is_mut
                }
        }),
    decreases args.len() - i,
{
    if i < args.len() {
        let next = bind_param(st, args[i as int].0, i);
        assert forall|k: int| 0 <= k < i + 1 implies {
            let b = #[trigger] next.vars[k];
            b.scope == 0 && b.slot.ident == args[k].0 && b.slot.offset == 8 * k && b.slot.size
                == 8 && !b.slot.is_mut
        } by {
            if k < i {
                assert(next.vars[k] == st.vars[k]);
            }
        }
        lemma_parameters_from(first, next, args, i + 1);
    }
}

/// Whether every variable that `e` names is in scope in `st`.
pub open spec fn resolves(st: State, e: ExprView) -> bool
    decreases e,
{
    match e {
        ExprView::Variable(v) => st.lookup(v) is Some,
        ExprView::Unary(op, right) => resolves(st, *right),
        ExprView::Binary(left, op, right) => resolves(st, *left) && resolves(st, *right),
        ExprView::Compare(left, op, right) => resolves(st, *left) && resolves(st, *right),
        ExprView::FunctionCall(ident, args) => forall|i: int|
            0 <= i < args.len() ==> resolves(st, #[trigger] args[i]),
        ExprView::Ptr(operand) => resolves(st, *operand),
        ExprView::ArrayIndex(ident, indexer) => st.lookup(ident) is Some && resolves(st, *indexer),
        _ => true,
    }
}

/// Lines added to the buffers change nothing about which names are in
/// scope.
pub proof fn lemma_resolves_stable(before: State, after: State, e: ExprView)
    requires
        emitted(before, after),
    ensures
        resolves(before, e) == resolves(after, e),
    decreases e,
{
    match e {
        ExprView::Unary(op, right) => lemma_resolves_stable(before, after, *right),
        ExprView::Binary(left, op, right) => {
            lemma_resolves_stable(before, after, *left);
            lemma_resolves_stable(before, after, *right);
        },
        ExprView::Compare(left, op, right) => {
            lemma_resolves_stable(before, after, *left);
            lemma_resolves_stable(before, after, *right);
        },
        ExprView::FunctionCall(ident, args) => {
            assert forall|i: int| 0 <= i < args.len() implies resolves(
                before,
                #[trigger] args[i],
            ) == resolves(after, args[i]) by {
                lemma_resolves_stable(before, after, args[i]);
            }
        },
        ExprView::Ptr(operand) => lemma_resolves_stable(before, after, *operand),
        ExprView::ArrayIndex(ident, indexer) => lemma_resolves_stable(before, after, *indexer),
        _ => {},
    }
}

/// An expression compiles only if every variable it names is found in the
/// open scopes at that point.
pub proof fn lemma_compiled_variables_resolve(st: State, e: ExprView)
    requires
        lower_expr(st, e) is Ok,
    ensures
        resolves(st, e),
    decreases e,
{
    match e {
        ExprView::Unary(op, right) => lemma_compiled_variables_resolve(st, *right),
        ExprView::Binary(left, op, right) => {
            lemma_compiled_variables_resolve(st, *left);
            let s1 = lower_expr(st, *left)->Ok_0;
            lemma_compiled_variables_resolve(s1, *right);
            lemma_expr_emits(st, *left);
            lemma_resolves_stable(st, s1, *right);
        },
        ExprView::Compare(left, op, right) => {
            lemma_compiled_variables_resolve(st, *left);
            let s1 = lower_expr(st, *left)->Ok_0;
            lemma_compiled_variables_resolve(s1, *right);
            lemma_expr_emits(st, *left);
            lemma_resolves_stable(st, s1, *right);
        },
        ExprView::FunctionCall(ident, args) => {
            lemma_compiled_arguments_resolve(st, st, args, 0);
        },
        ExprView::ArrayIndex(ident, indexer) => lemma_compiled_variables_resolve(st, *indexer),
        ExprView::Ptr(operand) => {
            assert(resolves(st, *operand));
        },
        _ => {},
    }
}

/// The arguments of a call that compiles name variables in scope. `first`
/// is the state before the first argument, `st` the one before argument `i`.
pub proof fn lemma_compiled_arguments_resolve(first: State, st: State, args: Seq<ExprView>, i: nat)
    requires
        emitted(first, st),
        lower_args(st, args, i) is Ok,
    ensures
        forall|k: int| i <= k < args.len() ==> resolves(first, #[trigger] args[k]),
    decreases args, args.len() - i,
{
    if i < args.len() {
        lemma_compiled_variables_resolve(st, args[i as int]);
        lemma_resolves_stable(first, st, args[i as int]);
        lemma_expr_emits(st, args[i as int]);
        let s = pass_argument(lower_expr(st, args[i as int])->Ok_0, args[i as int] is String, i);
        lemma_compiled_arguments_resolve(first, s, args, i + 1);
    }
}

} // verus!
