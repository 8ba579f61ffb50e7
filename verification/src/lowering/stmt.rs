//! Statements and blocks. A statement leaves the evaluation stack as it
//! found it; a block opens a scope under a fresh id and closes it again.

use vstd::prelude::*;
use crate::instr::{Instr, Jump};
use crate::lowering::expr::lower_expr;
use crate::operand::{element_operand, register_name, slot_operand};
use crate::parser::expr::ExprView;
use crate::parser::stmt::{AssginOp, DeclareView, ElseView, IfView, StmtView, VariableType};
use crate::state::{Failure, Slot, State, Stopped, Warning};
use crate::text::is_alphanumeric;

verus! {

/// The bytes that a variable of the declared type takes, and the bytes of
/// one element. Without a type a variable is an eight-byte scalar.
pub open spec fn declared_sizes(t: Option<VariableType>) -> Result<(nat, nat), Failure> {
    match t {
        None => Ok((8, 8)),
        Some(VariableType::Array(element, length)) => match *element {
            VariableType::Int => Ok((8 * length as nat, 8)),
            VariableType::Char => Ok((length as nat, 1)),
            _ => Err(Failure::ArrayElement),
        },
        Some(VariableType::Char) => Ok((1, 1)),
        Some(_) => Ok((8, 8)),
    }
}

/// The store of the initial value, which is on the stack, to the slot.
pub open spec fn store_initial(st: State, slot: Slot) -> State {
    st.pop("rax"@).plain(
        "mov "@ + slot_operand(slot.item_size, slot.below()) + ","@ + register_name(
            "a"@,
            slot.item_size,
        ),
    )
}

/// A declaration: the next bytes of the frame become the slot; the initial
/// value, if any, is lowered and stored; only then does the name come into
/// scope.
pub open spec fn lower_declare(st: State, v: DeclareView) -> Result<State, Stopped> {
    match declared_sizes(v.v_type) {
        Err(f) => st.fail(f),
        Ok((size, item_size)) => if v.is_static {
            st.fail(Failure::StaticVariable)
        } else if st.mem_offset + size > usize::MAX {
            st.fail(Failure::FrameTooLarge)
        } else {
            let slot = Slot {
                ident: v.ident,
                offset: st.mem_offset,
                size,
                item_size,
                is_mut: v.mutable,
            };
            let grown = State { mem_offset: st.mem_offset + size, ..st };
            match v.init_value {
                None => Ok(grown.bind(slot)),
                Some(init) => match lower_expr(grown, init) {
                    Err(f) => Err(f),
                    Ok(s) => Ok(store_initial(s, slot).bind(slot)),
                },
            }
        },
    }
}

/// What follows the argument of `print`: a `write` system call for a string
/// literal, a call of the `print` helper for a number.
pub open spec fn print_tail(st: State, is_string: bool) -> State {
    if is_string {
        st.plain("mov rax, 1"@).plain("mov rdi, 1"@).pop("rbx"@).pop("rcx"@).plain(
            "mov rsi, rcx"@,
        ).plain("mov rdx, rbx"@).plain("syscall"@)
    } else {
        st.pop("rdi"@).plain("call print"@)
    }
}

/// What follows the value of `return`.
pub open spec fn return_tail(st: State) -> State {
    st.pop("rax"@).plain("leave"@).plain("ret"@)
}

/// The memory operand that an assignment writes: the element that `rbx`
/// selects where the slot holds several, the slot itself otherwise.
pub open spec fn assign_target(slot: Slot) -> Seq<char> {
    if slot.item_size != slot.size {
        element_operand(slot.item_size, slot.below())
    } else {
        slot_operand(slot.item_size, slot.below())
    }
}

/// The instruction that combines the `a` register into the target.
pub open spec fn assign_text(mnemonic: Seq<char>, slot: Slot) -> Seq<char> {
    mnemonic + assign_target(slot) + ","@ + register_name("a"@, slot.item_size)
}

/// What follows the right side of an assignment.
pub open spec fn assign_tail(st: State, op: AssginOp, slot: Slot) -> State {
    let s = st.pop("rax"@);
    match op {
        AssginOp::Eq => s.plain(assign_text("mov "@, slot)),
        AssginOp::PlusEq => s.plain(assign_text("add "@, slot)),
        AssginOp::SubEq => s.plain(assign_text("sub "@, slot)),
        AssginOp::MultiEq => s.plain(assign_text("imul "@, slot)),
        AssginOp::DevideEq => s.plain("idiv rbx"@).plain(assign_text("mov "@, slot)),
        AssginOp::ModEq => s.plain("cdq"@).plain("idiv rbx"@).plain(assign_text("mov "@, slot)),
    }
}

/// An assignment of `right` to `left`, which is a variable or an element of
/// one.
pub open spec fn lower_assign(st: State, left: ExprView, op: AssginOp, right: ExprView) -> Result<
    State,
    Stopped,
> {
    match left {
        ExprView::Variable(v) => match st.lookup(v) {
            None => st.fail(Failure::UndefinedVariable(v)),
            Some(slot) => if !slot.is_mut {
                st.fail(Failure::ImmutableVariable(v))
            } else {
                match lower_expr(st, right) {
                    Err(f) => Err(f),
                    Ok(s) => Ok(assign_tail(s, op, slot)),
                }
            },
        },
        ExprView::ArrayIndex(ident, indexer) => match st.lookup(ident) {
            None => st.fail(Failure::UndefinedVariable(ident)),
            Some(slot) => if !slot.is_mut {
                st.fail(Failure::ImmutableVariable(ident))
            } else {
                match lower_expr(st, right) {
                    Err(f) => Err(f),
                    Ok(s1) => match lower_expr(s1, *indexer) {
                        Err(f) => Err(f),
                        Ok(s2) => Ok(assign_tail(s2.pop("rbx"@), op, slot)),
                    },
                }
            },
        },
        _ => st.fail(Failure::NotAssignable),
    }
}

/// Whether `flags` marks the character at position `i`; behind the last
/// flag, none is marked.
pub open spec fn flag_at(flags: Seq<bool>, i: int) -> bool {
    0 <= i < flags.len() && flags[i]
}

/// Whether the character at position `i` of `s` belongs to an identifier:
/// it is an underscore, or `flags` marks it as a letter or a digit. The
/// `%` that starts a substitution never belongs to one.
pub open spec fn is_ident_at(s: Seq<char>, flags: Seq<bool>, i: int) -> bool {
    s[i] == '_' || (s[i] != '%' && flag_at(flags, i))
}

/// The end of the longest run of identifier characters that starts at `i`.
pub open spec fn ident_end(s: Seq<char>, flags: Seq<bool>, i: int) -> int
    decreases s.len() - i,
{
    if i < 0 || i >= s.len() || !is_ident_at(s, flags, i) {
        i
    } else {
        ident_end(s, flags, i + 1)
    }
}

/// A run that starts inside the line ends inside it, at or behind its start.
pub proof fn lemma_ident_end(s: Seq<char>, flags: Seq<bool>, i: int)
    requires
        0 <= i <= s.len(),
    ensures
        i <= ident_end(s, flags, i) <= s.len(),
        forall|k: int| i <= k < ident_end(s, flags, i) ==> is_ident_at(s, flags, k),
        ident_end(s, flags, i) == s.len() || !is_ident_at(s, flags, ident_end(s, flags, i)),
    decreases s.len() - i,
{
    if i < s.len() && is_ident_at(s, flags, i) {
        lemma_ident_end(s, flags, i + 1);
    }
}

/// The text of an inline assembly line from `i` on, with each `%name`
/// replaced by the eight-byte memory operand of the variable `name`. The
/// name is the longest run of identifier characters behind the `%`; `flags`
/// tells the letters and digits of the line.
pub open spec fn substitute_with(st: State, s: Seq<char>, flags: Seq<bool>, i: int) -> Result<
    Seq<char>,
    Failure,
>
    decreases s.len() - i,
{
    if i < 0 || i >= s.len() {
        Ok(Seq::empty())
    } else if s[i] != '%' {
        match substitute_with(st, s, flags, i + 1) {
            Err(f) => Err(f),
            Ok(rest) => Ok(seq![s[i]] + rest),
        }
    } else {
        let end = ident_end(s, flags, i + 1);
        proof {
            lemma_ident_end(s, flags, i + 1);
        }
        if end <= i + 1 {
            Err(Failure::EmptySubstitution)
        } else {
            let name = s.subrange(i + 1, end);
            match st.lookup(name) {
                None => Err(Failure::UndefinedVariable(name)),
                Some(slot) => match substitute_with(st, s, flags, end) {
                    Err(f) => Err(f),
                    Ok(rest) => Ok(slot_operand(8, slot.below()) + rest),
                },
            }
        }
    }
}

/// For each character of a line, whether it is a letter or a digit.
pub open spec fn alphanumeric_flags(s: Seq<char>) -> Seq<bool> {
    Seq::new(s.len(), |k: int| is_alphanumeric(s[k]))
}

/// The text of an inline assembly line with each `%name` replaced by the
/// eight-byte memory operand of the variable `name`.
pub open spec fn substitute(st: State, s: Seq<char>) -> Result<Seq<char>, Failure> {
    substitute_with(st, s, alphanumeric_flags(s), 0)
}

/// The lines of an inline assembly block from `i` on.
pub open spec fn lower_inline(st: State, lines: Seq<Seq<char>>, i: nat) -> Result<State, Stopped>
    decreases lines.len() - i,
{
    if i >= lines.len() {
        Ok(st)
    } else {
        match substitute(st, lines[i as int]) {
            Err(f) => st.fail(f),
            Ok(text) => lower_inline(st.emit(Instr::Inline(text)), lines, i + 1),
        }
    }
}

/// The state in which the statements of a block are lowered: the counter
/// has moved on and its value is the innermost scope.
pub open spec fn open_scope(st: State) -> State {
    let id = st.block_id + 1;
    State { block_id: id, scopes: st.scopes.push(id), ..st }
}

/// The state after a block: the innermost scope is gone, its slots stay.
pub open spec fn close_scope(st: State) -> State {
    State { scopes: st.scopes.drop_last(), ..st }
}

/// The test of a condition that is on the stack, and the jump on zero.
pub open spec fn test_and_branch(st: State, jump: Jump, target: nat) -> State {
    st.pop("rax"@).plain("test rax, rax"@).branch(jump, target)
}

/// What follows a call that is a statement: the result of the function, if
/// it has one, is taken off the stack again.
pub open spec fn drop_result(st: State, ident: Seq<char>) -> State {
    match st.signature(ident) {
        Some(sig) => if sig.has_return {
            st.pop("rax"@)
        } else {
            st
        },
        None => st,
    }
}

/// The state after statement `s` was lowered in `st`, or why it cannot be.
/// An expression other than a call has no effect as a statement: it is
/// left out with a warning.
pub open spec fn lower_stmt(st: State, s: StmtView) -> Result<State, Stopped>
    decreases s,
{
    match s {
        StmtView::VariableDecl(v) => lower_declare(st, v),
        StmtView::Print(e) => match lower_expr(st, e) {
            Err(f) => Err(f),
            Ok(s1) => Ok(print_tail(s1, e is String)),
        },
        StmtView::If(ifs) => lower_if(st, ifs, st.code.len()),
        StmtView::Assgin(left, op, right) => lower_assign(st, left, op, right),
        StmtView::While(condition, body) => lower_while(st, condition, body),
        StmtView::Expr(e) => match e {
            ExprView::FunctionCall(ident, args) => match lower_expr(st, e) {
                Err(f) => Err(f),
                Ok(s1) => Ok(drop_result(s1, ident)),
            },
            _ => Ok(st.warn(Warning::NoEffect)),
        },
        StmtView::Return(e) => match lower_expr(st, e) {
            Err(f) => Err(f),
            Ok(s1) => Ok(return_tail(s1)),
        },
        StmtView::InlineAsm(lines) => lower_inline(st, lines, 0),
        StmtView::Break => st.fail(Failure::LoopControl),
        StmtView::Continue => st.fail(Failure::LoopControl),
    }
}

/// The statements of a block from `i` on.
pub open spec fn lower_stmts(st: State, stmts: Seq<StmtView>, i: nat) -> Result<State, Stopped>
    decreases stmts, stmts.len() - i,
{
    if i >= stmts.len() {
        Ok(st)
    } else {
        match lower_stmt(st, stmts[i as int]) {
            Err(f) => Err(f),
            Ok(s) => lower_stmts(s, stmts, i + 1),
        }
    }
}

/// A block: its statements in a scope of its own, as long as the block
/// counter can count on.
pub open spec fn lower_block(st: State, b: Seq<StmtView>) -> Result<State, Stopped>
    decreases b, b.len() + 1,
{
    if st.block_id >= usize::MAX {
        st.fail(Failure::BlockLimit)
    } else {
        match lower_stmts(open_scope(st), b, 0) {
            Err(f) => Err(f),
            Ok(s) => Ok(close_scope(s)),
        }
    }
}

/// One level of an `if` chain. `exit` is the label behind the whole chain.
/// A level with an alternative gets a label of its own for it, numbered by
/// the length of the instruction buffer when the condition has been
/// lowered; a level without one jumps to `exit` and defines it.
pub open spec fn lower_if(st: State, ifs: IfView, exit: nat) -> Result<State, Stopped>
    decreases ifs,
{
    match lower_expr(st, ifs.condition) {
        Err(f) => Err(f),
        Ok(s0) => {
            let next = if *ifs.else_block is NoElse {
                exit
            } else {
                s0.code.len()
            };
            match lower_block(test_and_branch(s0, Jump::IfZero, next), ifs.then_block) {
                Err(f) => Err(f),
                Ok(s1) => match *ifs.else_block {
                    ElseView::NoElse => Ok(s1.label(next)),
                    ElseView::Else(b) => match lower_block(
                        s1.branch(Jump::Always, exit).label(next),
                        b,
                    ) {
                        Err(f) => Err(f),
                        Ok(s2) => Ok(s2.label(exit)),
                    },
                    ElseView::Elif(inner) => lower_if(
                        s1.branch(Jump::Always, exit).label(next),
                        inner,
                        exit,
                    ),
                },
            }
        },
    }
}

/// A loop: a jump to the condition, the body under its label, then the
/// condition under its own and the jump back. The two labels are numbered
/// by the length of the instruction buffer before the loop, and one more.
pub open spec fn lower_while(st: State, condition: ExprView, body: Seq<StmtView>) -> Result<
    State,
    Stopped,
>
    decreases body, body.len() + 2,
{
    let cond = st.code.len();
    let start = cond + 1;
    match lower_block(st.branch(Jump::Always, cond).label(start), body) {
        Err(f) => Err(f),
        Ok(s1) => match lower_expr(s1.label(cond), condition) {
            Err(f) => Err(f),
            Ok(s2) => Ok(test_and_branch(s2, Jump::IfNotZero, start)),
        },
    }
}

} // verus!
