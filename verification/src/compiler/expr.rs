//! Lowering of expressions.

use vstd::prelude::*;
use crate::compiler::{
    element_operand_string, function_args_register, rbs, slot_operand_string, Compiler,
    VariableMap,
};
use crate::error::{follows, CompileError};
use crate::lowering::expr::{
    binary_tail, compare_tail, data_line, db_operands, db_operands_from, escape_code, is_escaped,
    len_line, load_element, load_slot, lower_args, lower_expr, lower_string, pass_argument,
    push_address, separator, unary_tail,
};
use crate::parser::expr::{
    expr_view, expr_views, lemma_expr_views, CompareOp, Expr, ExprView, FunctionCall, Op, UnaryOp,
};

use crate::laws::data::lemma_quoted_run;
use crate::text::{chars_of, decimal_string, push_decimal, signed_decimal_string};

verus! {

fn escaped(c: char) -> (r: bool)
    ensures
        r == is_escaped(c),
{
    c == '\n' || c == '\t' || c == '\r' || c == '"'
}

fn escape_code_str(c: char) -> (r: &'static str)
    requires
        is_escaped(c),
    ensures
        r@ == escape_code(c),
{
    if c == '\n' {
        " 10"
    } else if c == '\t' {
        " 9"
    } else if c == '\r' {
        " 13"
    } else {
        " 34"
    }
}

impl Compiler {
    /// The operands of `db` that define the bytes of `text`.
    pub fn asmfy_string(text: &str) -> (r: String)
        ensures
            r@ == db_operands(text@),
    {
        let chars = chars_of(text);
        let n: usize = chars.len();
        let mut res = String::new();
        let mut i: usize = 0;
        assert(res@ + db_operands_from(text@, 0, false) =~= db_operands(text@));
        while i < n
            invariant
                i <= n,
                n == text@.len(),
                chars@ == text@,
                res@ + db_operands_from(text@, i as int, false) == db_operands(text@),
            decreases n - i,
        {
            let ghost before = res@;
            if i > 0 {
                res.append(",");
            }
            assert(res@ =~= before + separator(i as int)) by {
                reveal_strlit(",");
            }
            if escaped(chars[i]) {
                res.append(escape_code_str(chars[i]));
                assert(res@ + db_operands_from(text@, i + 1, false) =~= before
                    + db_operands_from(text@, i as int, false));
                i += 1;
            } else {
                let start: usize = i;
                while i < n && !escaped(chars[i])
                    invariant
                        start <= i <= n,
                        n == text@.len(),
                        chars@ == text@,
                        forall|k: int| start <= k < i ==> !is_escaped(text@[k]),
                    decreases n - i,
                {
                    i += 1;
                }
                res.append("\"");
                res.append(text.substring_char(start, i));
                res.append("\"");
                proof {
                    lemma_quoted_run(text@, start as int, i as int);
                    assert(res@ + db_operands_from(text@, i as int, false) =~= before
                        + db_operands_from(text@, start as int, false));
                }
            }
        }
        assert(res@ + db_operands_from(text@, n as int, false) =~= res@);
        res
    }

    /// A string literal: two lines of data, two pushes.
    fn compile_string(&mut self, text: &String)
        requires
            old(self).wf(),
        ensures
            final(self).wf(),
            final(self)@ == lower_string(old(self)@, text@),
    {
        let id: usize = self.data_len();
        let mut data_name = String::from_str("data");
        push_decimal(&mut data_name, id as u64);
        let mut len_name = String::from_str("len");
        push_decimal(&mut len_name, id as u64);
        let operands = Self::asmfy_string(text.as_str());
        let mut first = String::from_str("    ");
        first.append(data_name.as_str());
        first.append(" db ");
        first.append(operands.as_str());
        first.append("\n");
        let mut second = String::from_str("    ");
        second.append(len_name.as_str());
        second.append(" equ $ - ");
        second.append(data_name.as_str());
        second.append("\n");
        assert(first@ == data_line(id as nat, text@));
        assert(second@ == len_line(id as nat));
        self.push_data(first, second);
        self.emit_push(data_name.as_str());
        self.emit_push(len_name.as_str());
    }

    /// The load of a scalar slot, then the push.
    fn compile_load(&mut self, slot: &VariableMap)
        requires
            old(self).wf(),
            slot@.item_size == 1 || slot@.item_size == 8,
            slot@.below() <= usize::MAX,
        ensures
            final(self).wf(),
            final(self)@ == load_slot(old(self)@, slot@),
    {
        let mut text = String::from_str("mov ");
        let reg = rbs("a", slot.item_size());
        text.append(reg.as_str());
        text.append(",");
        let mem = slot_operand_string(slot.item_size(), slot.below());
        text.append(mem.as_str());
        self.emit_plain(text.as_str());
        self.emit_push("rax");
    }

    fn compile_unary_tail(&mut self, op: UnaryOp)
        requires
            old(self).wf(),
        ensures
            final(self).wf(),
            final(self)@ == unary_tail(old(self)@, op),
    {
        self.emit_pop("rax");
        match op {
            UnaryOp::Minus => {
                self.emit_plain("neg rax");
                self.emit_push("rax");
            },
            UnaryOp::Plus => {
                self.emit_push("rax");
            },
            UnaryOp::Not => {
                self.emit_plain("not rax");
                self.emit_push("rax");
            },
        }
    }

    fn compile_binary_tail(&mut self, op: Op)
        requires
            old(self).wf(),
        ensures
            final(self).wf(),
            final(self)@ == binary_tail(old(self)@, op),
    {
        self.emit_pop("rbx");
        self.emit_pop("rax");
        match op {
            Op::Plus => {
                self.emit_plain("add rax, rbx");
                self.emit_push("rax");
            },
            Op::Sub => {
                self.emit_plain("sub rax, rbx");
                self.emit_push("rax");
            },
            Op::Multi => {
                self.emit_plain("imul rax, rbx");
                self.emit_push("rax");
            },
            Op::Devide => {
                self.emit_plain("cqo");
                self.emit_plain("idiv rbx");
                self.emit_push("rax");
            },
            Op::Mod => {
                self.emit_plain("cqo");
                self.emit_plain("idiv rbx");
                self.emit_push("rdx");
            },
            Op::Or => {
                self.emit_plain("or rax, rbx");
                self.emit_push("rax");
            },
            Op::And => {
                self.emit_plain("and rax, rbx");
                self.emit_push("rax");
            },
            Op::Lsh => {
                self.emit_plain("mov rcx, rbx");
                self.emit_plain("sal rax, cl");
                self.emit_push("rax");
            },
            Op::Rsh => {
                self.emit_plain("mov rcx, rbx");
                self.emit_plain("sar rax, cl");
                self.emit_push("rax");
            },
        }
    }

    fn compile_compare_tail(&mut self, op: CompareOp)
        requires
            old(self).wf(),
        ensures
            final(self).wf(),
            final(self)@ == compare_tail(old(self)@, op),
    {
        self.emit_plain("mov rcx, 0");
        self.emit_plain("mov rdx, 1");
        self.emit_pop("rbx");
        self.emit_pop("rax");
        self.emit_plain("cmp rax, rbx");
        match op {
            CompareOp::Eq => self.emit_plain("cmove rcx, rdx"),
            CompareOp::NotEq => self.emit_plain("cmovne rcx, rdx"),
            CompareOp::Bigger => self.emit_plain("cmovg rcx, rdx"),
            CompareOp::Smaller => self.emit_plain("cmovl rcx, rdx"),
            CompareOp::BiggerEq => self.emit_plain("cmovge rcx, rdx"),
            CompareOp::SmallerEq => self.emit_plain("cmovle rcx, rdx"),
        }
        self.emit_push("rcx");
    }

    /// The address of a slot.
    fn compile_address(&mut self, slot: &VariableMap)
        requires
            old(self).wf(),
            slot@.below() <= usize::MAX,
        ensures
            final(self).wf(),
            final(self)@ == push_address(old(self)@, slot@),
    {
        self.emit_plain("mov rax, rbp");
        let mut text = String::from_str("sub rax, ");
        push_decimal(&mut text, slot.below() as u64);
        self.emit_plain(text.as_str());
        self.emit_push("rax");
    }

    /// The load of the element that the index on the stack selects.
    fn compile_element_load(&mut self, slot: &VariableMap)
        requires
            old(self).wf(),
            slot@.item_size == 1 || slot@.item_size == 8,
            slot@.below() <= usize::MAX,
        ensures
            final(self).wf(),
            final(self)@ == load_element(old(self)@, slot@),
    {
        self.emit_pop("rbx");
        let reg = rbs("a", slot.item_size());
        let mem = element_operand_string(slot.item_size(), slot.below());
        let mut text = String::from_str("mov ");
        text.append(reg.as_str());
        text.append(",");
        text.append(mem.as_str());
        self.emit_plain(text.as_str());
        self.emit_push("rax");
    }

    /// The move of an argument from the stack to its register.
    fn compile_pass_argument(&mut self, is_string: bool, index: usize)
        requires
            old(self).wf(),
            index < 6,
        ensures
            final(self).wf(),
            final(self)@ == pass_argument(old(self)@, is_string, index as nat),
    {
        if is_string {
            self.emit_pop("rax");
        }
        let reg = function_args_register(index, 8);
        self.emit_pop(reg.as_str());
    }

    /// A call: the arguments in order, each moved to its register, then the
    /// call, then the push of the result where the function has one.
    pub(crate) fn compile_function_call(&mut self, fc: &FunctionCall) -> (r: Result<
        (),
        CompileError,
    >)
        requires
            old(self).wf(),
        ensures
            final(self).wf(),
            follows(
                r,
                final(self)@,
                lower_expr(old(self)@, ExprView::FunctionCall(fc.ident@, expr_views(fc.args@))),
            ),
        decreases fc,
    {
        let ghost args = expr_views(fc.args@);
        proof {
            lemma_expr_views(fc.args@, fc.args@.len());
        }
        let mut index: usize = 0;
        while index < fc.args.len()
            invariant
                index <= fc.args.len(),
                self.wf(),
                args == expr_views(fc.args@),
                args.len() == fc.args@.len(),
                forall|k: int| 0 <= k < args.len() ==> #[trigger] args[k] == expr_view(fc.args@[k]),
                lower_args(old(self)@, args, 0) == lower_args(self@, args, index as nat),
            decreases fc.args.len() - index,
        {
            let arg = &fc.args[index];
            match self.compile_expr(arg) {
                Err(e) => {
                    return Err(e);
                },
                Ok(()) => {},
            }
            if index >= 6 {
                return Err(CompileError::TooManyArguments);
            }
            let is_string = match arg {
                Expr::String(_) => true,
                _ => false,
            };
            self.compile_pass_argument(is_string, index);
            index += 1;
        }
        match self.callee_returns(&fc.ident) {
            None => Err(CompileError::UndefinedFunction(fc.ident.clone())),
            Some(has_return) => {
                self.emit_plain("mov rax, 0");
                let mut text = String::from_str("call ");
                text.append(fc.ident.as_str());
                self.emit_plain(text.as_str());
                if has_return {
                    self.emit_push("rax");
                }
                Ok(())
            },
        }
    }

    /// Lowers `expr`: its value is left on the stack.
    pub(crate) fn compile_expr(&mut self, expr: &Expr) -> (r: Result<(), CompileError>)
        requires
            old(self).wf(),
        ensures
            final(self).wf(),
            follows(r, final(self)@, lower_expr(old(self)@, expr_view(*expr))),
        decreases expr,
    {
        match expr {
            Expr::Variable(v) => {
                match self.slot_of(v) {
                    Err(e) => Err(e),
                    Ok(slot) => {
                        self.compile_load(&slot);
                        Ok(())
                    },
                }
            },
            Expr::Char(x) => {
                let operand = decimal_string(*x as usize);
                self.emit_push(operand.as_str());
                Ok(())
            },
            Expr::Int(x) => {
                let operand = signed_decimal_string(*x);
                self.emit_push(operand.as_str());
                Ok(())
            },
            Expr::Compare(c) => {
                match self.compile_expr(&c.left) {
                    Err(e) => {
                        return Err(e);
                    },
                    Ok(()) => {},
                }
                match self.compile_expr(&c.right) {
                    Err(e) => {
                        return Err(e);
                    },
                    Ok(()) => {},
                }
                self.compile_compare_tail(c.op);
                Ok(())
            },
            Expr::Binary(b) => {
                match self.compile_expr(&b.left) {
                    Err(e) => {
                        return Err(e);
                    },
                    Ok(()) => {},
                }
                match self.compile_expr(&b.right) {
                    Err(e) => {
                        return Err(e);
                    },
                    Ok(()) => {},
                }
                self.compile_binary_tail(b.op);
                Ok(())
            },
            Expr::String(text) => {
                self.compile_string(text);
                Ok(())
            },
            Expr::Unary(u) => {
                match self.compile_expr(&u.right) {
                    Err(e) => {
                        return Err(e);
                    },
                    Ok(()) => {},
                }
                self.compile_unary_tail(u.op);
                Ok(())
            },
            Expr::FunctionCall(fc) => self.compile_function_call(fc),
            Expr::Ptr(operand) => self.compile_ptr(operand),
            Expr::ArrayIndex(ai) => {
                match self.slot_of(&ai.ident) {
                    Err(e) => Err(e),
                    Ok(slot) => {
                        match self.compile_expr(&ai.indexer) {
                            Err(e) => {
                                return Err(e);
                            },
                            Ok(()) => {},
                        }
                        self.compile_element_load(&slot);
                        Ok(())
                    },
                }
            },
        }
    }

    /// The address of a variable; nothing else has one.
    pub(crate) fn compile_ptr(&mut self, expr: &Expr) -> (r: Result<(), CompileError>)
        requires
            old(self).wf(),
        ensures
            final(self).wf(),
            follows(
                r,
                final(self)@,
                lower_expr(old(self)@, ExprView::Ptr(Box::new(expr_view(*expr)))),
            ),
    {
        match expr {
            Expr::Variable(v) => {
                match self.slot_of(v) {
                    Err(e) => Err(e),
                    Ok(slot) => {
                        self.compile_address(&slot);
                        Ok(())
                    },
                }
            },
            _ => Err(CompileError::AddressOperand),
        }
    }
}

} // verus!
