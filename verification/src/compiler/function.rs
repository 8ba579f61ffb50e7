//! Lowering of functions.

use vstd::prelude::*;
use crate::compiler::{function_args_register, slot_operand_string, Compiler, VariableMap};
use crate::error::{follows, CompileError};
use crate::laws::growth::{lemma_block_advances, lemma_params_advance};
use crate::lowering::function::{begin_function, epilogue, lower_function, lower_params, param_slot};

use crate::parser::function::{arg_views, function_view, Function, FunctionArg};
use crate::parser::stmt::block_view;

use crate::text::str_eq;

verus! {

impl Compiler {
    /// Binds the parameters of a function: each gets eight bytes of the
    /// frame, and the register that carries it is stored there.
    pub fn function_args(&mut self, args: &[FunctionArg]) -> (r: Result<(), CompileError>)
        requires
            old(self).wf(),
        ensures
            final(self).wf(),
            follows(r, final(self)@, lower_params(old(self)@, arg_views(args@), 0)),
    {
        let mut args_count: usize = 0;
        while args_count < args.len()
            invariant
                args_count <= args.len(),
                self.wf(),
                lower_params(old(self)@, arg_views(args@), 0) == lower_params(
                    self@,
                    arg_views(args@),
                    args_count as nat,
                ),
            decreases args.len() - args_count,
        {
            if args_count >= 6 {
                return Err(CompileError::TooManyArguments);
            }
            let offset: usize = self.frame_bytes();
            if offset > usize::MAX - 8 {
                return Err(CompileError::FrameTooLarge);
            }
            let arg = &args[args_count];
            let map = VariableMap::new(arg.ident.clone(), offset, 8, 8, false);
            assert(map@ == param_slot(self@, arg.ident@));
            let mut text = String::from_str("mov ");
            let mem_acss = slot_operand_string(8, map.below());
            text.append(mem_acss.as_str());
            text.append(",");
            let reg = function_args_register(args_count, 8);
            text.append(reg.as_str());
            self.emit_plain(text.as_str());
            self.grow_frame(8);
            self.bind(map);
            args_count += 1;
        }
        Ok(())
    }

    fn compile_epilogue(&mut self, ident: &String)
        requires
            old(self).wf(),
        ensures
            final(self).wf(),
            final(self)@ == epilogue(old(self)@, ident@),
    {
        if str_eq(ident.as_str(), "main") {
            self.emit_plain("mov rax, 60");
            self.emit_plain("mov rdi, 0");
            self.emit_plain("syscall");
        } else if self.has_locals() {
            self.emit_plain("leave");
            self.emit_plain("ret");
        } else {
            self.emit_plain("ret");
        }
    }

    /// Lowers a function: entry label, parameters, body, and around them
    /// the prologue and the epilogue that its locals ask for.
    pub fn function(&mut self, f: &Function) -> (r: Result<(), CompileError>)
        requires
            old(self).wf(),
        ensures
            final(self).wf(),
            follows(r, final(self)@, lower_function(old(self)@, function_view(*f))),
    {
        self.begin_function(&f.ident);
        let ghost begun = self@;
        let index: usize = self.code_len() - 3;
        match self.function_args(f.args.as_slice()) {
            Err(e) => {
                return Err(e);
            },
            Ok(()) => {},
        }
        let ghost bound = self@;
        proof {
            lemma_params_advance(begun, arg_views(f.args@), 0);
        }
        match self.compile_block(&f.block) {
            Err(e) => {
                return Err(e);
            },
            Ok(()) => {},
        }
        proof {
            lemma_block_advances(bound, block_view(f.block));
        }
        self.close_scope();
        if self.has_locals() {
            if self.frame_bytes() == 0 {
                return Err(CompileError::EmptyFrame);
            }
            match self.frame_size() {
                None => {
                    return Err(CompileError::FrameTooLarge);
                },
                Some(size) => {
                    self.patch_prologue(index, size);
                },
            }
        }
        self.compile_epilogue(&f.ident);
        Ok(())
    }
}

} // verus!
