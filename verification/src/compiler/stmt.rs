//! Lowering of statements and blocks.

use vstd::prelude::*;
use crate::compiler::{element_operand_string, rbs, slot_operand_string, Compiler, VariableMap};
use crate::error::{follows, CompileError};
use crate::instr::{Instr, Jump};
use crate::laws::growth::{lemma_expr_emits, lemma_stmts_advance};

use crate::lowering::stmt::{
    alphanumeric_flags, assign_tail, assign_text, declared_sizes, ident_end, is_ident_at,
    lower_assign, lower_block, lower_declare, lower_if, lower_inline, lower_stmt, lower_stmts,
    lower_while, open_scope, print_tail, store_initial, substitute, substitute_with,
    test_and_branch,
};
use crate::operand::slot_operand;
use crate::parser::block::Block;
use crate::parser::expr::{expr_view, Expr};
use crate::parser::stmt::{
    block_view, declare_view, if_view, lemma_stmt_views, stmt_view, string_views, Assgin, AssginOp,
    ElseBlock, IFStmt, Stmt, VariableDeclare, VariableType, WhileStmt,
};
use crate::state::{Failure, State, Warning};
use crate::text::{char_is_alphanumeric, chars_of, is_alphanumeric};

verus! {

/// A result of `substitute_with` with `prefix` in front of its text.
spec fn with_prefix(prefix: Seq<char>, rest: Result<Seq<char>, Failure>) -> Result<
    Seq<char>,
    Failure,
> {
    match rest {
        Ok(text) => Ok(prefix + text),
        Err(f) => Err(f),
    }
}

/// Characters other than `%` are copied.
proof fn lemma_plain_run(st: State, s: Seq<char>, flags: Seq<bool>, from: int, to: int)
    requires
        0 <= from <= to <= s.len(),
        forall|k: int| from <= k < to ==> s[k] != '%',
    ensures
        substitute_with(st, s, flags, from) == with_prefix(
            s.subrange(from, to),
            substitute_with(st, s, flags, to),
        ),
    decreases to - from,
{
    if from < to {
        lemma_plain_run(st, s, flags, from + 1, to);
        assert(seq![s[from]] + s.subrange(from + 1, to) =~= s.subrange(from, to));
        match substitute_with(st, s, flags, to) {
            Ok(rest) => {
                assert(seq![s[from]] + (s.subrange(from + 1, to) + rest) =~= s.subrange(from, to)
                    + rest);
            },
            Err(_) => {},
        }
    } else {
        match substitute_with(st, s, flags, to) {
            Ok(rest) => {
                assert(s.subrange(from, to) + rest =~= rest);
            },
            Err(_) => {},
        }
    }
}

/// A run of identifier characters that cannot be made longer is the
/// longest one.
proof fn lemma_ident_end_is(s: Seq<char>, flags: Seq<bool>, from: int, to: int)
    requires
        0 <= from <= to <= s.len(),
        forall|k: int| from <= k < to ==> is_ident_at(s, flags, k),
        to == s.len() || !is_ident_at(s, flags, to),
    ensures
        ident_end(s, flags, from) == to,
    decreases to - from,
{
    if from < to {
        lemma_ident_end_is(s, flags, from + 1, to);
    }
}

/// Whether the character at position `i` belongs to an identifier.
fn ident_at(chars: &Vec<char>, flags: &Vec<bool>, i: usize) -> (r: bool)
    requires
        i < chars@.len(),
    ensures
        r == is_ident_at(chars@, flags@, i as int),
{
    chars[i] == '_' || (chars[i] != '%' && i < flags.len() && flags[i])
}

/// For each character of `text`, whether it is a letter or a digit.
fn flags_of(text: &str) -> (flags: Vec<bool>)
    ensures
        flags@ == alphanumeric_flags(text@),
{
    let chars = chars_of(text);
    let mut flags: Vec<bool> = Vec::new();
    let mut i: usize = 0;
    while i < chars.len()
        invariant
            i <= chars@.len(),
            chars@ == text@,
            flags@.len() == i,
            forall|k: int| 0 <= k < i ==> flags@[k] == is_alphanumeric(text@[k]),
        decreases chars@.len() - i,
    {
        flags.push(char_is_alphanumeric(chars[i]));
        i += 1;
    }
    assert(flags@ =~= alphanumeric_flags(text@));
    flags
}

impl Compiler {
    /// The bytes of a variable of the declared type and of one element of
    /// it; no size where the bytes cannot be counted.
    fn sizes_of(v_type: &Option<VariableType>) -> (r: Result<(Option<usize>, usize), CompileError>)
        ensures
            match declared_sizes(*v_type) {
                Err(f) => r matches Err(e) && e@ == f,
                Ok((size, item_size)) => r matches Ok((counted, item)) && item == item_size && (
                item == 1 || item == 8) && match counted {
                    Some(n) => n == size,
                    None => size > usize::MAX,
                },
            },
    {
        match v_type {
            None => Ok((Some(8), 8)),
            Some(VariableType::Array(element, length)) => match **element {
                VariableType::Int => Ok((length.checked_mul(8), 8)),
                VariableType::Char => Ok((Some(*length), 1)),
                _ => Err(CompileError::ArrayElement),
            },
            Some(VariableType::Char) => Ok((Some(1), 1)),
            Some(_) => Ok((Some(8), 8)),
        }
    }

    /// The store of the initial value to the slot.
    fn compile_store_initial(&mut self, slot: &VariableMap)
        requires
            old(self).wf(),
            slot@.item_size == 1 || slot@.item_size == 8,
            slot@.below() <= usize::MAX,
        ensures
            final(self).wf(),
            final(self)@ == store_initial(old(self)@, slot@),
    {
        self.emit_pop("rax");
        let mut text = String::from_str("mov ");
        let mem = slot_operand_string(slot.item_size(), slot.below());
        text.append(mem.as_str());
        text.append(",");
        let reg = rbs("a", slot.item_size());
        text.append(reg.as_str());
        self.emit_plain(text.as_str());
    }

    /// Declares a variable: it gets the next bytes of the frame, its
    /// initial value is lowered and stored, and its name comes into scope.
    pub fn insert_variable(&mut self, var: &VariableDeclare) -> (r: Result<(), CompileError>)
        requires
            old(self).wf(),
        ensures
            final(self).wf(),
            follows(r, final(self)@, lower_declare(old(self)@, declare_view(*var))),
    {
        let (counted, item_size) = match Self::sizes_of(&var.v_type) {
            Err(e) => {
                return Err(e);
            },
            Ok(sizes) => sizes,
        };
        if var.is_static {
            return Err(CompileError::StaticVariable);
        }
        let size: usize = match counted {
            None => {
                return Err(CompileError::FrameTooLarge);
            },
            Some(n) => n,
        };
        let offset: usize = self.frame_bytes();
        if size > usize::MAX - offset {
            return Err(CompileError::FrameTooLarge);
        }
        let slot = VariableMap::new(var.ident.clone(), offset, size, item_size, var.mutable);
        self.grow_frame(size);
        match &var.init_value {
            None => {},
            Some(init) => {
                match self.compile_expr(init) {
                    Err(e) => {
                        return Err(e);
                    },
                    Ok(()) => {},
                }
                self.compile_store_initial(&slot);
                proof {
                    lemma_expr_emits(
                        State { mem_offset: old(self)@.mem_offset + size as nat, ..old(self)@ },
                        expr_view(*init),
                    );
                }
            },
        }
        self.bind(slot);
        Ok(())
    }

    /// The instruction that combines the `a` register into the slot, or
    /// into the element that `rbx` selects.
    fn assign_instruction(mnemonic: &str, v_map: &VariableMap) -> (r: String)
        requires
            v_map@.item_size == 1 || v_map@.item_size == 8,
            v_map@.below() <= usize::MAX,
        ensures
            r@ == assign_text(mnemonic@, v_map@),
    {
        let mut text = String::from_str(mnemonic);
        let mem_acss = if v_map.item_size() != v_map.size() {
            element_operand_string(v_map.item_size(), v_map.below())
        } else {
            slot_operand_string(v_map.item_size(), v_map.below())
        };
        text.append(mem_acss.as_str());
        text.append(",");
        let reg = rbs("a", v_map.item_size());
        text.append(reg.as_str());
        text
    }

    /// What follows the right side of an assignment to `v_map`.
    pub(crate) fn assgin_op(&mut self, op: &AssginOp, v_map: &VariableMap)
        requires
            old(self).wf(),
            v_map@.item_size == 1 || v_map@.item_size == 8,
            v_map@.below() <= usize::MAX,
        ensures
            final(self).wf(),
            final(self)@ == assign_tail(old(self)@, *op, v_map@),
    {
        self.emit_pop("rax");
        match op {
            AssginOp::Eq => {
                let text = Self::assign_instruction("mov ", v_map);
                self.emit_plain(text.as_str());
            },
            AssginOp::PlusEq => {
                let text = Self::assign_instruction("add ", v_map);
                self.emit_plain(text.as_str());
            },
            AssginOp::SubEq => {
                let text = Self::assign_instruction("sub ", v_map);
                self.emit_plain(text.as_str());
            },
            AssginOp::MultiEq => {
                let text = Self::assign_instruction("imul ", v_map);
                self.emit_plain(text.as_str());
            },
            AssginOp::DevideEq => {
                self.emit_plain("idiv rbx");
                let text = Self::assign_instruction("mov ", v_map);
                self.emit_plain(text.as_str());
            },
            AssginOp::ModEq => {
                self.emit_plain("cdq");
                self.emit_plain("idiv rbx");
                let text = Self::assign_instruction("mov ", v_map);
                self.emit_plain(text.as_str());
            },
        }
    }

    /// An assignment to a variable or to an element of one.
    pub(crate) fn compile_assgin(&mut self, assign: &Assgin) -> (r: Result<(), CompileError>)
        requires
            old(self).wf(),
        ensures
            final(self).wf(),
            follows(
                r,
                final(self)@,
                lower_assign(
                    old(self)@,
                    expr_view(assign.left),
                    assign.op,
                    expr_view(assign.right),
                ),
            ),
    {
        match &assign.left {
            Expr::Variable(v) => {
                let v_map = match self.slot_of(v) {
                    Err(e) => {
                        return Err(e);
                    },
                    Ok(slot) => slot,
                };
                if !v_map.is_mut() {
                    return Err(CompileError::ImmutableVariable(v.clone()));
                }
                match self.compile_expr(&assign.right) {
                    Err(e) => {
                        return Err(e);
                    },
                    Ok(()) => {},
                }
                self.assgin_op(&assign.op, &v_map);
                Ok(())
            },
            Expr::ArrayIndex(ai) => {
                let v_map = match self.slot_of(&ai.ident) {
                    Err(e) => {
                        return Err(e);
                    },
                    Ok(slot) => slot,
                };
                if !v_map.is_mut() {
                    return Err(CompileError::ImmutableVariable(ai.ident.clone()));
                }
                match self.compile_expr(&assign.right) {
                    Err(e) => {
                        return Err(e);
                    },
                    Ok(()) => {},
                }
                match self.compile_expr(&ai.indexer) {
                    Err(e) => {
                        return Err(e);
                    },
                    Ok(()) => {},
                }
                self.emit_pop("rbx");
                self.assgin_op(&assign.op, &v_map);
                Ok(())
            },
            _ => Err(CompileError::NotAssignable),
        }
    }

    /// The text of the inline assembly line `instr` with each `%name`
    /// replaced by the eight-byte memory operand of the variable `name`.
    /// `flags` tells for each character of the line whether it is a letter
    /// or a digit; a name is made of these and of underscores.
    pub fn substitute_line(&self, instr: &str, flags: &Vec<bool>) -> (r: Result<
        String,
        CompileError,
    >)
        requires
            self.wf(),
        ensures
            match substitute_with(self@, instr@, flags@, 0) {
                Ok(text) => r matches Ok(line) && line@ == text,
                Err(f) => r matches Err(e) && e@ == f,
            },
    {
        let chars = chars_of(instr);
        let n: usize = chars.len();
        let mut out = String::new();
        let mut index: usize = 0;
        proof {
            match substitute_with(self@, instr@, flags@, 0) {
                Ok(text) => {
                    assert(out@ + text =~= text);
                },
                Err(_) => {},
            }
        }
        while index < n
            invariant
                index <= n,
                n == instr@.len(),
                chars@ == instr@,
                self.wf(),
                substitute_with(self@, instr@, flags@, 0) == with_prefix(
                    out@,
                    substitute_with(self@, instr@, flags@, index as int),
                ),
            decreases n - index,
        {
            let ghost before = out@;
            let ghost at = index as int;
            if chars[index] != '%' {
                let first: usize = index;
                while index < n && chars[index] != '%'
                    invariant
                        first <= index <= n,
                        n == instr@.len(),
                        chars@ == instr@,
                        forall|k: int| first <= k < index ==> instr@[k] != '%',
                    decreases n - index,
                {
                    index += 1;
                }
                out.append(instr.substring_char(first, index));
                proof {
                    lemma_plain_run(self@, instr@, flags@, at, index as int);
                    match substitute_with(self@, instr@, flags@, index as int) {
                        Ok(rest) => {
                            assert(before + (instr@.subrange(at, index as int) + rest) =~= out@
                                + rest);
                        },
                        Err(_) => {},
                    }
                }
            } else {
                let first: usize = index + 1;
                index = first;
                while index < n && ident_at(&chars, flags, index)
                    invariant
                        first <= index <= n,
                        n == instr@.len(),
                        chars@ == instr@,
                        forall|k: int| first <= k < index ==> is_ident_at(instr@, flags@, k),
                    decreases n - index,
                {
                    index += 1;
                }
                proof {
                    lemma_ident_end_is(instr@, flags@, first as int, index as int);
                }
                if index == first {
                    return Err(CompileError::EmptySubstitution);
                }
                let ident = String::from_str(instr.substring_char(first, index));
                let v_map = match self.slot_of(&ident) {
                    Err(e) => {
                        return Err(e);
                    },
                    Ok(slot) => slot,
                };
                let mem_acss = slot_operand_string(8, v_map.below());
                out.append(mem_acss.as_str());
                proof {
                    match substitute_with(self@, instr@, flags@, index as int) {
                        Ok(rest) => {
                            assert(before + (slot_operand(8, v_map@.below()) + rest) =~= out@
                                + rest);
                        },
                        Err(_) => {},
                    }
                }
            }
        }
        proof {
            assert(out@ + Seq::<char>::empty() =~= out@);
        }
        Ok(out)
    }

    /// A line of inline assembly: each `%name` becomes the memory operand
    /// of the variable `name`. Nothing is written where a name is missing
    /// or unknown.
    pub(crate) fn compile_inline_asm(&mut self, instr: &String) -> (r: Result<(), CompileError>)
        requires
            old(self).wf(),
        ensures
            final(self).wf(),
            match substitute(old(self)@, instr@) {
                Ok(text) => r is Ok && final(self)@ == old(self)@.emit(Instr::Inline(text)),
                Err(f) => r matches Err(e) && e@ == f && final(self)@ == old(self)@,
            },
    {
        let flags = flags_of(instr.as_str());
        match self.substitute_line(instr.as_str(), &flags) {
            Err(e) => Err(e),
            Ok(line) => {
                self.emit_inline(line);
                Ok(())
            },
        }
    }
}

impl Compiler {
    /// The test of a condition that is on the stack, and the jump.
    fn compile_test_and_branch(&mut self, jump: Jump, target: usize)
        requires
            old(self).wf(),
        ensures
            final(self).wf(),
            final(self)@ == test_and_branch(old(self)@, jump, target as nat),
    {
        self.emit_pop("rax");
        self.emit_plain("test rax, rax");
        self.emit_branch(jump, target);
    }

    fn compile_print_tail(&mut self, is_string: bool)
        requires
            old(self).wf(),
        ensures
            final(self).wf(),
            final(self)@ == print_tail(old(self)@, is_string),
    {
        if is_string {
            self.emit_plain("mov rax, 1");
            self.emit_plain("mov rdi, 1");
            self.emit_pop("rbx");
            self.emit_pop("rcx");
            self.emit_plain("mov rsi, rcx");
            self.emit_plain("mov rdx, rbx");
            self.emit_plain("syscall");
        } else {
            self.emit_pop("rdi");
            self.emit_plain("call print");
        }
    }

    /// The lines of an inline assembly block.
    fn compile_inline_block(&mut self, instructs: &Vec<String>) -> (r: Result<(), CompileError>)
        requires
            old(self).wf(),
        ensures
            final(self).wf(),
            follows(r, final(self)@, lower_inline(old(self)@, string_views(instructs@), 0)),
    {
        let mut i: usize = 0;
        while i < instructs.len()
            invariant
                i <= instructs.len(),
                self.wf(),
                lower_inline(old(self)@, string_views(instructs@), 0) == lower_inline(
                    self@,
                    string_views(instructs@),
                    i as nat,
                ),
            decreases instructs.len() - i,
        {
            match self.compile_inline_asm(&instructs[i]) {
                Err(e) => {
                    return Err(e);
                },
                Ok(()) => {},
            }
            i += 1;
        }
        Ok(())
    }

    /// Lowers one statement.
    pub(crate) fn compile_stmt(&mut self, stmt: &Stmt) -> (r: Result<(), CompileError>)
        requires
            old(self).wf(),
        ensures
            final(self).wf(),
            follows(r, final(self)@, lower_stmt(old(self)@, stmt_view(*stmt))),
        decreases stmt,
    {
        match stmt {
            Stmt::VariableDecl(v) => self.insert_variable(v),
            Stmt::Print(e) => {
                match self.compile_expr(e) {
                    Err(err) => {
                        return Err(err);
                    },
                    Ok(()) => {},
                }
                let is_string = match e {
                    Expr::String(_) => true,
                    _ => false,
                };
                self.compile_print_tail(is_string);
                Ok(())
            },
            Stmt::If(ifs) => {
                let exit_tag: usize = self.code_len();
                self.compile_if_stmt(ifs, exit_tag)
            },
            Stmt::Assgin(a) => self.compile_assgin(a),
            Stmt::While(w) => self.compile_while(w),
            Stmt::Expr(e) => match e {
                Expr::FunctionCall(fc) => {
                    match self.compile_expr(e) {
                        Err(err) => {
                            return Err(err);
                        },
                        Ok(()) => {},
                    }
                    match self.callee_returns(&fc.ident) {
                        Some(true) => {
                            self.emit_pop("rax");
                        },
                        _ => {},
                    }
                    Ok(())
                },
                _ => {
                    self.warn(Warning::NoEffect);
                    Ok(())
                },
            },
            Stmt::Return(e) => {
                match self.compile_expr(e) {
                    Err(err) => {
                        return Err(err);
                    },
                    Ok(()) => {},
                }
                self.emit_pop("rax");
                self.emit_plain("leave");
                self.emit_plain("ret");
                Ok(())
            },
            Stmt::InlineAsm(instructs) => self.compile_inline_block(instructs),
            Stmt::Break => Err(CompileError::LoopControl),
            Stmt::Continue => Err(CompileError::LoopControl),
        }
    }

    /// Lowers the statements of a block, in order.
    fn compile_stmts(&mut self, block: &Block) -> (r: Result<(), CompileError>)
        requires
            old(self).wf(),
        ensures
            final(self).wf(),
            follows(r, final(self)@, lower_stmts(old(self)@, block_view(*block), 0)),
        decreases block, 0nat,
    {
        let ghost stmts = block_view(*block);
        proof {
            lemma_stmt_views(block.stmts@, block.stmts@.len());
        }
        let mut i: usize = 0;
        while i < block.stmts.len()
            invariant
                i <= block.stmts.len(),
                self.wf(),
                stmts == block_view(*block),
                stmts.len() == block.stmts@.len(),
                forall|k: int|
                    0 <= k < stmts.len() ==> #[trigger] stmts[k] == stmt_view(block.stmts@[k]),
                lower_stmts(old(self)@, stmts, 0) == lower_stmts(self@, stmts, i as nat),
            decreases block.stmts.len() - i,
        {
            match self.compile_stmt(&block.stmts[i]) {
                Err(e) => {
                    return Err(e);
                },
                Ok(()) => {},
            }
            i += 1;
        }
        Ok(())
    }

    /// Lowers a block in a scope of its own. The scope gets the next id of
    /// the block counter and is closed again behind the last statement.
    pub(crate) fn compile_block(&mut self, block: &Block) -> (r: Result<(), CompileError>)
        requires
            old(self).wf(),
        ensures
            final(self).wf(),
            follows(r, final(self)@, lower_block(old(self)@, block_view(*block))),
            r is Ok ==> {
                &&& final(self)@.scopes == old(self)@.scopes
                &&& final(self)@.block_id > old(self)@.block_id
            },
        decreases block, 1nat,
    {
        if !self.can_open_scope() {
            return Err(CompileError::BlockLimit);
        }
        self.open_scope();
        let ghost opened = self@;
        match self.compile_stmts(block) {
            Err(e) => {
                return Err(e);
            },
            Ok(()) => {},
        }
        proof {
            lemma_stmts_advance(opened, block_view(*block), 0);
            assert(self@.scopes.drop_last() =~= old(self)@.scopes);
        }
        self.close_scope();
        Ok(())
    }

    /// Lowers one level of an `if` chain; `exit_tag` is the label behind
    /// the whole chain.
    pub(crate) fn compile_if_stmt(&mut self, ifs: &IFStmt, exit_tag: usize) -> (r: Result<
        (),
        CompileError,
    >)
        requires
            old(self).wf(),
        ensures
            final(self).wf(),
            follows(r, final(self)@, lower_if(old(self)@, if_view(*ifs), exit_tag as nat)),
        decreases ifs,
    {
        match self.compile_expr(&ifs.condition) {
            Err(e) => {
                return Err(e);
            },
            Ok(()) => {},
        }
        let next_tag: usize = match &*ifs.else_block {
            ElseBlock::NoElse => exit_tag,
            _ => self.code_len(),
        };
        self.compile_test_and_branch(Jump::IfZero, next_tag);
        match self.compile_block(&ifs.then_block) {
            Err(e) => {
                return Err(e);
            },
            Ok(()) => {},
        }
        match &*ifs.else_block {
            ElseBlock::NoElse => {
                self.emit_label(next_tag);
                Ok(())
            },
            ElseBlock::Else(b) => {
                self.emit_branch(Jump::Always, exit_tag);
                self.emit_label(next_tag);
                match self.compile_block(b) {
                    Err(e) => {
                        return Err(e);
                    },
                    Ok(()) => {},
                }
                self.emit_label(exit_tag);
                Ok(())
            },
            ElseBlock::Elif(iff) => {
                self.emit_branch(Jump::Always, exit_tag);
                self.emit_label(next_tag);
                self.compile_if_stmt(iff, exit_tag)
            },
        }
    }

    /// Lowers a loop.
    pub(crate) fn compile_while(&mut self, w_stmt: &WhileStmt) -> (r: Result<(), CompileError>)
        requires
            old(self).wf(),
        ensures
            final(self).wf(),
            follows(
                r,
                final(self)@,
                lower_while(old(self)@, expr_view(w_stmt.condition), block_view(w_stmt.block)),
            ),
        decreases w_stmt,
    {
        let cond_tag: usize = self.code_len();
        self.emit_branch(Jump::Always, cond_tag);
        let block_tag: usize = self.code_len();
        self.emit_label(block_tag);
        match self.compile_block(&w_stmt.block) {
            Err(e) => {
                return Err(e);
            },
            Ok(()) => {},
        }
        self.emit_label(cond_tag);
        match self.compile_expr(&w_stmt.condition) {
            Err(e) => {
                return Err(e);
            },
            Ok(()) => {},
        }
        self.compile_test_and_branch(Jump::IfNotZero, block_tag);
        Ok(())
    }
}

} // verus!
