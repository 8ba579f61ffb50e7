//! The registers that the arguments of a call travel in.

use vstd::prelude::*;
use crate::instr::Instr;
use crate::laws::growth::{begins_with, lemma_args_emit};
use crate::lowering::expr::{call_tail, lower_args, lower_expr, pass_argument};
use crate::operand::arg_register;
use crate::parser::expr::ExprView;
use crate::state::State;

verus! {

/// The state in which argument `i` of a call is lowered: the arguments
/// before it have been lowered and moved to their registers.
pub open spec fn before_argument(st: State, args: Seq<ExprView>, i: nat) -> State
    decreases i,
{
    if i == 0 {
        st
    } else {
        let j = (i - 1) as nat;
        pass_argument(
            lower_expr(before_argument(st, args, j), args[j as int])->Ok_0,
            args[j as int] is String,
            j,
        )
    }
}

/// The arguments from `i` on are lowered in the state that the arguments
/// before them leave.
proof fn lemma_args_from(st: State, args: Seq<ExprView>, i: nat)
    requires
        lower_args(st, args, 0) is Ok,
        i <= args.len(),
    ensures
        lower_args(before_argument(st, args, i), args, i) == lower_args(st, args, 0),
    decreases i,
{
    if i > 0 {
        lemma_args_from(st, args, (i - 1) as nat);
    }
}

/// The eight-byte argument registers are `rdi`, `rsi`, `rdx`, `rcx`, `r8`
/// and `r9`, in this order.
pub proof fn lemma_argument_register_names()
    ensures
        arg_register(0, 8) == "rdi"@,
        arg_register(1, 8) == "rsi"@,
        arg_register(2, 8) == "rdx"@,
        arg_register(3, 8) == "rcx"@,
        arg_register(4, 8) == "r8"@,
        arg_register(5, 8) == "r9"@,
{
    reveal_strlit("a");
    reveal_strlit("b");
    reveal_strlit("c");
    reveal_strlit("d");
    reveal_strlit("sp");
    reveal_strlit("bp");
    reveal_strlit("si");
    reveal_strlit("di");
    reveal_strlit("r8");
    reveal_strlit("r9");
    reveal_strlit("r");
    reveal_strlit("x");
    reveal_strlit("rdi");
    reveal_strlit("rsi");
    reveal_strlit("rdx");
    reveal_strlit("rcx");
    assert(arg_register(0, 8) =~= "rdi"@);
    assert(arg_register(1, 8) =~= "rsi"@);
    assert(arg_register(2, 8) =~= "rdx"@);
    assert(arg_register(3, 8) =~= "rcx"@);
    assert("r8"@[0] != "a"@[0] && "r8"@.len() != 1);
    assert("r9"@[1] != "r8"@[1]);
    assert(arg_register(4, 8) =~= "r8"@);
    assert(arg_register(5, 8) =~= "r9"@);
}

/// Argument `i` of a call is moved to the `i`-th argument register: the
/// instruction right behind the code of the argument, or behind the pop
/// that drops the length of a string, pops the value into that register.
/// This says where the pop stands, and no more: the code of a later
/// argument may write the register again.
pub proof fn lemma_argument_in_register(st: State, ident: Seq<char>, args: Seq<ExprView>, i: nat)
    requires
        lower_expr(st, ExprView::FunctionCall(ident, args)) is Ok,
        i < args.len(),
    ensures
        ({
            let after = lower_expr(st, ExprView::FunctionCall(ident, args))->Ok_0;
            let value = lower_expr(before_argument(st, args, i), args[i as int]);
            let is_string = args[i as int] is String;
            let at = value->Ok_0.code.len() + if is_string {
                1int
            } else {
                0int
            };
            &&& i < 6
            &&& value is Ok
            &&& at < after.code.len()
            &&& after.code[at] == Instr::Pop(arg_register(i, 8))
            &&& is_string ==> after.code[at - 1] == Instr::Pop("rax"@)
        }),
{
    let before = before_argument(st, args, i);
    lemma_args_from(st, args, i);
    let value = lower_expr(before, args[i as int])->Ok_0;
    let passed = pass_argument(value, args[i as int] is String, i);
    assert(lower_args(passed, args, i + 1) == lower_args(st, args, 0));
    lemma_args_emit(passed, args, i + 1);
    let moved = lower_args(st, args, 0)->Ok_0;
    assert(begins_with(call_tail(moved, ident)->Ok_0.code, moved.code));
}

} // verus!
