//! Functions: the frame, the parameters, the prologue and the epilogue.

use vstd::arithmetic::logarithm::{lemma_log0, lemma_log_s, log};
use vstd::arithmetic::power2::{lemma2_to64, lemma_pow2_unfold, pow2};
use vstd::prelude::*;
use crate::instr::Instr;
use crate::lowering::stmt::{close_scope, lower_block};
use crate::operand::{arg_register, slot_operand};
use crate::parser::function::FunctionView;
use crate::parser::stmt::VariableType;
use crate::state::{Failure, Slot, State, Stopped};
use crate::text::decimal;

verus! {

/// The bytes that the prologue takes from the stack for `n` bytes of
/// locals: the least power of two above `n`.
pub open spec fn frame_size(n: nat) -> nat
    decreases n,
{
    if n <= 1 {
        2
    } else {
        2 * frame_size(n / 2)
    }
}

/// Whether `k` is a power of two.
pub open spec fn is_power_of_two(k: nat) -> bool
    decreases k,
{
    k == 1 || (k >= 2 && k % 2 == 0 && is_power_of_two(k / 2))
}

/// The frame size is a power of two above the bytes of the locals, and the
/// least one.
pub proof fn lemma_frame_size(n: nat)
    requires
        n >= 1,
    ensures
        is_power_of_two(frame_size(n)),
        n < frame_size(n) <= 2 * n,
    decreases n,
{
    reveal_with_fuel(is_power_of_two, 2);
    if n > 1 {
        lemma_frame_size(n / 2);
        assert(frame_size(n) / 2 == frame_size(n / 2));
    }
}

/// The frame size is two to the power of one more than the whole part of
/// the binary logarithm of the bytes of the locals.
pub proof fn lemma_frame_size_formula(n: nat)
    requires
        n >= 1,
    ensures
        log(2, n as int) >= 0,
        frame_size(n) == pow2((log(2, n as int) + 1) as nat),
    decreases n,
{
    if n == 1 {
        lemma_log0(2, 1);
        lemma2_to64();
    } else {
        lemma_frame_size_formula(n / 2);
        lemma_log_s(2, n as int);
        lemma_pow2_unfold((log(2, n as int) + 1) as nat);
    }
}

/// The label that a function is entered at. The program starts at `main`.
pub open spec fn entry_name(ident: Seq<char>) -> Seq<char> {
    if ident == "main"@ {
        "_start"@
    } else {
        ident
    }
}

/// The state in which a function's parameters are bound: fresh tables and
/// counters, the function scope 0 open, the entry label written and three
/// lines kept free for the prologue.
pub open spec fn begin_function(st: State, ident: Seq<char>) -> State {
    State {
        scopes: seq![0nat],
        block_id: 0,
        vars: Seq::empty(),
        mem_offset: 0,
        ..st
    }.emit(Instr::Entry(entry_name(ident))).emit(Instr::Reserved).emit(Instr::Reserved).emit(
        Instr::Reserved,
    )
}

/// The slot of parameter `index`: eight bytes, not assignable.
pub open spec fn param_slot(st: State, ident: Seq<char>) -> Slot {
    Slot { ident, offset: st.mem_offset, size: 8, item_size: 8, is_mut: false }
}

/// The state after parameter `i` was bound: it has the next eight bytes of
/// the frame, and its register is stored there.
pub open spec fn bind_param(st: State, ident: Seq<char>, i: nat) -> State {
    let slot = param_slot(st, ident);
    let stored = st.plain("mov "@ + slot_operand(8, slot.below()) + ","@ + arg_register(i, 8));
    State { mem_offset: st.mem_offset + 8, ..stored }.bind(slot)
}

/// The parameters from position `i` on, bound in order. The seventh has no
/// register.
pub open spec fn lower_params(
    st: State,
    args: Seq<(Seq<char>, VariableType)>,
    i: nat,
) -> Result<State, Stopped>
    decreases args.len() - i,
{
    if i >= args.len() {
        Ok(st)
    } else if i >= 6 {
        st.fail(Failure::TooManyArguments)
    } else if st.mem_offset + 8 > usize::MAX {
        st.fail(Failure::FrameTooLarge)
    } else {
        lower_params(bind_param(st, args[i as int].0, i), args, i + 1)
    }
}

/// The three lines kept free at `at` become the prologue.
pub open spec fn patch_prologue(st: State, at: int) -> State {
    State {
        code: st.code.update(at, Instr::Push("rbp"@)).update(
            at + 1,
            Instr::Plain("mov rbp, rsp"@),
        ).update(at + 2, Instr::Plain("sub rsp, "@ + decimal(frame_size(st.mem_offset)))),
        ..st
    }
}

/// The end of a function: `main` leaves the process with status 0; another
/// function returns, and gives up its frame first if it has one.
pub open spec fn epilogue(st: State, ident: Seq<char>) -> State {
    if ident == "main"@ {
        st.plain("mov rax, 60"@).plain("mov rdi, 0"@).plain("syscall"@)
    } else if st.vars.len() > 0 {
        st.plain("leave"@).plain("ret"@)
    } else {
        st.plain("ret"@)
    }
}

/// What follows the body: the function scope is closed, the prologue is
/// written if the function has any locals, then the epilogue.
pub open spec fn finish_function(st: State, ident: Seq<char>, at: int) -> Result<State, Stopped> {
    let s = close_scope(st);
    if s.vars.len() == 0 {
        Ok(epilogue(s, ident))
    } else if s.mem_offset == 0 {
        s.fail(Failure::EmptyFrame)
    } else if frame_size(s.mem_offset) > usize::MAX {
        s.fail(Failure::FrameTooLarge)
    } else {
        Ok(epilogue(patch_prologue(s, at), ident))
    }
}

/// A function: the entry label, the parameters, the body, and around them
/// the prologue and the epilogue.
pub open spec fn lower_function(st: State, f: FunctionView) -> Result<State, Stopped> {
    match lower_params(begin_function(st, f.ident), f.args, 0) {
        Err(e) => Err(e),
        Ok(s1) => match lower_block(s1, f.block) {
            Err(e) => Err(e),
            Ok(s2) => finish_function(s2, f.ident, st.code.len() as int + 1),
        },
    }
}

} // verus!
