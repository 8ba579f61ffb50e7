//! Expressions. Lowering one leaves its value on the stack: one word, or
//! two for a string literal (the length above the address of the bytes).

use vstd::prelude::*;
use crate::operand::{arg_register, element_operand, register_name, slot_operand};
use crate::parser::expr::{CompareOp, ExprView, Op, UnaryOp};
use crate::state::{Failure, Slot, State, Stopped};
use crate::text::{decimal, signed_decimal};

verus! {

/// The characters that a string constant holds as numbers, not in quotes.
pub open spec fn is_escaped(c: char) -> bool {
    c == '\n' || c == '\t' || c == '\r' || c == '"'
}

/// The ASCII code of an escaped character, as an operand of `db`.
pub open spec fn escape_code(c: char) -> Seq<char> {
    if c == '\n' {
        " 10"@
    } else if c == '\t' {
        " 9"@
    } else if c == '\r' {
        " 13"@
    } else {
        " 34"@
    }
}

/// The comma that separates an operand that starts at `i` from the one
/// before it.
pub open spec fn separator(i: int) -> Seq<char> {
    if i > 0 {
        ","@
    } else {
        Seq::empty()
    }
}

/// The operands of `db` for the characters of `s` from `i` on. `quoted`
/// says that a quoted run is open at `i`.
pub open spec fn db_operands_from(s: Seq<char>, i: int, quoted: bool) -> Seq<char>
    decreases s.len() - i,
{
    if i < 0 || i >= s.len() {
        if quoted {
            "\""@
        } else {
            Seq::empty()
        }
    } else if is_escaped(s[i]) {
        let close = if quoted {
            "\""@
        } else {
            Seq::empty()
        };
        close + separator(i) + escape_code(s[i]) + db_operands_from(s, i + 1, false)
    } else {
        let open = if quoted {
            Seq::empty()
        } else {
            separator(i) + "\""@
        };
        open + seq![s[i]] + db_operands_from(s, i + 1, true)
    }
}

/// The operands of `db` that define the bytes of `s`: runs of ordinary
/// characters in double quotes, escaped characters by their codes, commas
/// in between.
pub open spec fn db_operands(s: Seq<char>) -> Seq<char> {
    db_operands_from(s, 0, false)
}

/// The name of the data label of string `id`.
pub open spec fn data_label(id: nat) -> Seq<char> {
    "data"@ + decimal(id)
}

/// The name of the length constant of string `id`.
pub open spec fn len_label(id: nat) -> Seq<char> {
    "len"@ + decimal(id)
}

/// The two lines of the data buffer that define string `id`.
pub open spec fn data_line(id: nat, s: Seq<char>) -> Seq<char> {
    "    "@ + data_label(id) + " db "@ + db_operands(s) + "\n"@
}

/// The line of the data buffer that defines the length of string `id`.
pub open spec fn len_line(id: nat) -> Seq<char> {
    "    "@ + len_label(id) + " equ $ - "@ + data_label(id) + "\n"@
}

/// A string literal: its bytes go to the data buffer under a fresh id, the
/// number of lines the buffer holds; its address and its length are pushed.
pub open spec fn lower_string(st: State, s: Seq<char>) -> State {
    let id = st.data.len();
    State { data: st.data.push(data_line(id, s)).push(len_line(id)), ..st }.push(
        data_label(id),
    ).push(len_label(id))
}

/// The load of a scalar slot into the `a` register, then the push.
pub open spec fn load_slot(st: State, slot: Slot) -> State {
    st.plain(
        "mov "@ + register_name("a"@, slot.item_size) + ","@ + slot_operand(
            slot.item_size,
            slot.below(),
        ),
    ).push("rax"@)
}

/// A variable reference.
pub open spec fn lower_variable(st: State, ident: Seq<char>) -> Result<State, Stopped> {
    match st.lookup(ident) {
        None => st.fail(Failure::UndefinedVariable(ident)),
        Some(slot) => Ok(load_slot(st, slot)),
    }
}

/// What follows the operand of a unary operator.
pub open spec fn unary_tail(st: State, op: UnaryOp) -> State {
    let s = st.pop("rax"@);
    match op {
        UnaryOp::Minus => s.plain("neg rax"@).push("rax"@),
        UnaryOp::Plus => s.push("rax"@),
        UnaryOp::Not => s.plain("not rax"@).push("rax"@),
    }
}

/// What follows the two operands of a binary operator.
pub open spec fn binary_tail(st: State, op: Op) -> State {
    let s = st.pop("rbx"@).pop("rax"@);
    match op {
        Op::Plus => s.plain("add rax, rbx"@).push("rax"@),
        Op::Sub => s.plain("sub rax, rbx"@).push("rax"@),
        Op::Multi => s.plain("imul rax, rbx"@).push("rax"@),
        Op::Devide => s.plain("cqo"@).plain("idiv rbx"@).push("rax"@),
        Op::Mod => s.plain("cqo"@).plain("idiv rbx"@).push("rdx"@),
        Op::Or => s.plain("or rax, rbx"@).push("rax"@),
        Op::And => s.plain("and rax, rbx"@).push("rax"@),
        Op::Lsh => s.plain("mov rcx, rbx"@).plain("sal rax, cl"@).push("rax"@),
        Op::Rsh => s.plain("mov rcx, rbx"@).plain("sar rax, cl"@).push("rax"@),
    }
}

/// The conditional move that sets the result of a comparison.
pub open spec fn conditional_move(op: CompareOp) -> Seq<char> {
    match op {
        CompareOp::Eq => "cmove rcx, rdx"@,
        CompareOp::NotEq => "cmovne rcx, rdx"@,
        CompareOp::Bigger => "cmovg rcx, rdx"@,
        CompareOp::Smaller => "cmovl rcx, rdx"@,
        CompareOp::BiggerEq => "cmovge rcx, rdx"@,
        CompareOp::SmallerEq => "cmovle rcx, rdx"@,
    }
}

/// What follows the two operands of a comparison: 0 or 1 is pushed.
pub open spec fn compare_tail(st: State, op: CompareOp) -> State {
    st.plain("mov rcx, 0"@).plain("mov rdx, 1"@).pop("rbx"@).pop("rax"@).plain(
        "cmp rax, rbx"@,
    ).plain(conditional_move(op)).push("rcx"@)
}

/// The move of an argument from the stack to the register of its position.
/// Of a string only the address travels: the length is popped away first.
pub open spec fn pass_argument(st: State, is_string: bool, index: nat) -> State {
    let s = if is_string {
        st.pop("rax"@)
    } else {
        st
    };
    s.pop(arg_register(index, 8))
}

/// The call itself, once the arguments are in their registers.
pub open spec fn call_tail(st: State, ident: Seq<char>) -> Result<State, Stopped> {
    match st.signature(ident) {
        None => st.fail(Failure::UndefinedFunction(ident)),
        Some(sig) => {
            let s = st.plain("mov rax, 0"@).plain("call "@ + ident);
            Ok(
                if sig.has_return {
                    s.push("rax"@)
                } else {
                    s
                },
            )
        },
    }
}

/// The address of a slot.
pub open spec fn push_address(st: State, slot: Slot) -> State {
    st.plain("mov rax, rbp"@).plain("sub rax, "@ + decimal(slot.below())).push("rax"@)
}

/// The load of the element that `rbx` selects, once the index is on the
/// stack: into the part of the `a` register that an element fills, then
/// the push of the whole register.
pub open spec fn load_element(st: State, slot: Slot) -> State {
    st.pop("rbx"@).plain(
        "mov "@ + register_name("a"@, slot.item_size) + ","@ + element_operand(
            slot.item_size,
            slot.below(),
        ),
    ).push("rax"@)
}

/// The state after `e` was lowered in `st`, or why it cannot be.
pub open spec fn lower_expr(st: State, e: ExprView) -> Result<State, Stopped>
    decreases e,
{
    match e {
        ExprView::Int(x) => Ok(st.push(signed_decimal(x as int))),
        ExprView::Char(c) => Ok(st.push(decimal(c as nat))),
        ExprView::String(s) => Ok(lower_string(st, s)),
        ExprView::Variable(v) => lower_variable(st, v),
        ExprView::Unary(op, right) => match lower_expr(st, *right) {
            Err(f) => Err(f),
            Ok(s) => Ok(unary_tail(s, op)),
        },
        ExprView::Binary(left, op, right) => match lower_expr(st, *left) {
            Err(f) => Err(f),
            Ok(s1) => match lower_expr(s1, *right) {
                Err(f) => Err(f),
                Ok(s2) => Ok(binary_tail(s2, op)),
            },
        },
        ExprView::Compare(left, op, right) => match lower_expr(st, *left) {
            Err(f) => Err(f),
            Ok(s1) => match lower_expr(s1, *right) {
                Err(f) => Err(f),
                Ok(s2) => Ok(compare_tail(s2, op)),
            },
        },
        ExprView::FunctionCall(ident, args) => match lower_args(st, args, 0) {
            Err(f) => Err(f),
            Ok(s) => call_tail(s, ident),
        },
        ExprView::Ptr(operand) => match *operand {
            ExprView::Variable(v) => match st.lookup(v) {
                None => st.fail(Failure::UndefinedVariable(v)),
                Some(slot) => Ok(push_address(st, slot)),
            },
            _ => st.fail(Failure::AddressOperand),
        },
        ExprView::ArrayIndex(ident, indexer) => match st.lookup(ident) {
            None => st.fail(Failure::UndefinedVariable(ident)),
            Some(slot) => match lower_expr(st, *indexer) {
                Err(f) => Err(f),
                Ok(s) => Ok(load_element(s, slot)),
            },
        },
    }
}

/// The arguments of a call from position `i` on, each lowered and then
/// moved to its register. The seventh has no register.
pub open spec fn lower_args(st: State, args: Seq<ExprView>, i: nat) -> Result<State, Stopped>
    decreases args, args.len() - i,
{
    if i >= args.len() {
        Ok(st)
    } else {
        match lower_expr(st, args[i as int]) {
            Err(f) => Err(f),
            Ok(s) => if i >= 6 {
                s.fail(Failure::TooManyArguments)
            } else {
                lower_args(pass_argument(s, args[i as int] is String, i), args, i + 1)
            },
        }
    }
}

} // verus!
