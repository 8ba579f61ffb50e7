//! The lowering engine.

pub mod expr;
pub mod function;
pub mod program;
pub mod stmt;

use vstd::prelude::*;
use crate::error::CompileError;
use crate::instr::{instrs, render_all, texts, views, Instr, Instruction, Jump};
use crate::lowering::function::{
    begin_function, frame_size, lemma_frame_size, lemma_frame_size_formula, patch_prologue,
};
use vstd::arithmetic::logarithm::log;
use vstd::arithmetic::power2::pow2;
use crate::lowering::program::lower_program;
use crate::lowering::stmt::{close_scope, open_scope};
use crate::parser::program::{file_views, ProgramFile};
use crate::state::{
    lookup_in, lookup_in_scope, signature_in, Binding, Failure, Signature, Slot, State, Warning,
};
use crate::operand::{
    arg_register, element_operand, known_register, register_name, slot_operand, valid_width,
    width_word,
};
use crate::text::{decimal, push_decimal, str_eq};

verus! {

/// Compiles the program whose root file is at `path` from the parsed
/// `sources`, and returns the text of the instruction buffer and of the
/// data buffer.
pub fn compile_to_asm(path: String, sources: &Vec<ProgramFile>) -> (r: Result<
    (Vec<String>, Vec<String>),
    CompileError,
>)
    ensures
        match lower_program(State::initial(), file_views(sources@), path@) {
            Ok(s) => r matches Ok((code, data)) && views(code@) == texts(s.code) && views(data@)
                == s.data,
            Err(stop) => r matches Err(e) && e@ == stop.failure,
        },
{
    let mut compiler = Compiler::new();
    compiler.compile(path, sources)
}

/// The NASM size keyword for an operand of `size` bytes.
pub fn mem_word(size: usize) -> (r: String)
    requires
        valid_width(size as nat),
    ensures
        r@ == width_word(size as nat),
{
    if size == 1 {
        String::from_str("byte")
    } else if size == 2 {
        String::from_str("word")
    } else if size == 4 {
        String::from_str("dword")
    } else {
        String::from_str("qword")
    }
}

/// The name of the `size`-byte part of the register family `register`:
/// `a`, `b`, `c`, `d`, `sp`, `bp`, `si`, `di` or `r8` to `r11`.
pub fn rbs(register: &str, size: usize) -> (r: String)
    requires
        known_register(register@),
        valid_width(size as nat),
    ensures
        r@ == register_name(register@, size as nat),
{
    if str_eq(register, "a") || str_eq(register, "b") || str_eq(register, "c") || str_eq(
        register,
        "d",
    ) {
        if size == 1 {
            let mut r = String::from_str(register);
            r.append("l");
            r
        } else if size == 2 {
            let mut r = String::from_str(register);
            r.append("x");
            r
        } else if size == 4 {
            let mut r = String::from_str("e");
            r.append(register);
            r.append("x");
            r
        } else {
            let mut r = String::from_str("r");
            r.append(register);
            r.append("x");
            r
        }
    } else if str_eq(register, "sp") || str_eq(register, "bp") || str_eq(register, "si")
        || str_eq(register, "di") {
        if size == 1 {
            let mut r = String::from_str(register);
            r.append("l");
            r
        } else if size == 2 {
            String::from_str(register)
        } else if size == 4 {
            let mut r = String::from_str("e");
            r.append(register);
            r
        } else {
            let mut r = String::from_str("r");
            r.append(register);
            r
        }
    } else {
        if size == 1 {
            let mut r = String::from_str(register);
            r.append("b");
            r
        } else if size == 2 {
            let mut r = String::from_str(register);
            r.append("w");
            r
        } else if size == 4 {
            let mut r = String::from_str(register);
            r.append("d");
            r
        } else {
            String::from_str(register)
        }
    }
}

/// The register that carries integer argument `arg_numer` of a call, at the
/// given width.
pub fn function_args_register(arg_numer: usize, size: usize) -> (r: String)
    requires
        arg_numer < 6,
        valid_width(size as nat),
    ensures
        r@ == arg_register(arg_numer as nat, size as nat),
{
    if arg_numer == 0 {
        rbs("di", size)
    } else if arg_numer == 1 {
        rbs("si", size)
    } else if arg_numer == 2 {
        rbs("d", size)
    } else if arg_numer == 3 {
        rbs("c", size)
    } else if arg_numer == 4 {
        rbs("r8", size)
    } else {
        rbs("r9", size)
    }
}

/// The text of `slot_operand`.
pub(crate) fn slot_operand_string(width: usize, below: usize) -> (r: String)
    requires
        valid_width(width as nat),
    ensures
        r@ == slot_operand(width as nat, below as nat),
{
    let mut r = mem_word(width);
    r.append(" [rbp-");
    push_decimal(&mut r, below as u64);
    r.append("]");
    r
}

/// The text of `element_operand`.
pub(crate) fn element_operand_string(width: usize, below: usize) -> (r: String)
    requires
        valid_width(width as nat),
    ensures
        r@ == element_operand(width as nat, below as nat),
{
    let mut r = mem_word(width);
    r.append(" [rbp-");
    push_decimal(&mut r, below as u64);
    r.append("+rbx*");
    push_decimal(&mut r, width as u64);
    r.append("]");
    r
}

/// A frame slot of the current function.
#[derive(Debug)]
pub struct VariableMap {
    _ident: String,
    offset: usize,
    size: usize,
    item_size: usize,
    is_mut: bool,
}

impl View for VariableMap {
    type V = Slot;

    closed spec fn view(&self) -> Slot {
        Slot {
            ident: self._ident@,
            offset: self.offset as nat,
            size: self.size as nat,
            item_size: self.item_size as nat,
            is_mut: self.is_mut,
        }
    }
}

impl Clone for VariableMap {
    fn clone(&self) -> (r: Self)
        ensures
            r@ == self@,
    {
        VariableMap {
            _ident: self._ident.clone(),
            offset: self.offset,
            size: self.size,
            item_size: self.item_size,
            is_mut: self.is_mut,
        }
    }
}

impl VariableMap {
    /// A slot of `size` bytes behind the first `offset` bytes of the frame.
    pub fn new(ident: String, offset: usize, size: usize, item_size: usize, is_mut: bool) -> (r:
        Self)
        ensures
            r@ == (Slot {
                ident: ident@,
                offset: offset as nat,
                size: size as nat,
                item_size: item_size as nat,
                is_mut,
            }),
    {
        VariableMap { _ident: ident, offset, size, item_size, is_mut }
    }

    /// The name that the slot was declared under.
    pub fn ident(&self) -> (r: &String)
        ensures
            r@ == self@.ident,
    {
        &self._ident
    }

    /// The bytes of the frame handed out before this slot.
    pub fn offset(&self) -> (r: usize)
        ensures
            r == self@.offset,
    {
        self.offset
    }

    /// The bytes that the slot takes.
    pub fn size(&self) -> (r: usize)
        ensures
            r == self@.size,
    {
        self.size
    }

    /// The bytes that one element takes.
    pub fn item_size(&self) -> (r: usize)
        ensures
            r == self@.item_size,
    {
        self.item_size
    }

    /// The distance from `rbp` down to the lowest byte of the slot.
    pub fn below(&self) -> (r: usize)
        requires
            self@.below() <= usize::MAX,
        ensures
            r == self@.below(),
    {
        self.offset + self.size
    }

    /// Whether the variable may be assigned to.
    pub fn is_mut(&self) -> (r: bool)
        ensures
            r == self@.is_mut,
    {
        self.is_mut
    }
}

/// A slot with the scope that declared it.
struct Scoped {
    scope: usize,
    slot: VariableMap,
}

impl View for Scoped {
    type V = Binding;

    closed spec fn view(&self) -> Binding {
        Binding { scope: self.scope as nat, slot: self.slot@ }
    }
}

/// An entry of the function table.
struct Callee {
    ident: String,
    has_return: bool,
}

impl View for Callee {
    type V = Signature;

    closed spec fn view(&self) -> Signature {
        Signature { ident: self.ident@, has_return: self.has_return }
    }
}

/// A compilation: the two output buffers, the symbol tables of the function
/// being lowered, and the counters that number blocks and frame bytes.
pub struct Compiler {
    instruct_buf: Vec<Instruction>,
    data_buf: Vec<String>,
    scoped_blocks: Vec<usize>,
    block_id: usize,
    variables_map: Vec<Scoped>,
    functions_map: Vec<Callee>,
    mem_offset: usize,
    warnings: Vec<Warning>,
}

impl View for Compiler {
    type V = State;

    closed spec fn view(&self) -> State {
        State {
            code: instrs(self.instruct_buf@),
            data: self.data_buf@.map_values(|s: String| s@),
            scopes: self.scoped_blocks@.map_values(|s: usize| s as nat),
            block_id: self.block_id as nat,
            vars: self.variables_map@.map_values(|b: Scoped| b@),
            funcs: self.functions_map@.map_values(|c: Callee| c@),
            mem_offset: self.mem_offset as nat,
            warnings: self.warnings@,
        }
    }
}

impl Compiler {
    /// The invariant of a compilation; see `State::wf`.
    pub open spec fn wf(&self) -> bool {
        self@.wf()
    }

    /// A compilation that has not begun: empty buffers and tables.
    pub fn new() -> (r: Self)
        ensures
            r.wf(),
            r@ == State::initial(),
    {
        let r = Self {
            instruct_buf: Vec::new(),
            data_buf: Vec::new(),
            scoped_blocks: Vec::new(),
            block_id: 0,
            variables_map: Vec::new(),
            functions_map: Vec::new(),
            mem_offset: 0,
            warnings: Vec::new(),
        };
        assert(r@.code =~= Seq::empty());
        assert(r@.data =~= Seq::empty());
        assert(r@.scopes =~= Seq::empty());
        assert(r@.vars =~= Seq::empty());
        assert(r@.funcs =~= Seq::empty());
        r
    }

    /// The latest slot declared as `ident` in scope `scope`.
    fn find_in_scope(&self, ident: &String, scope: usize) -> (r: Option<usize>)
        ensures
            match r {
                Some(i) => i < self.variables_map@.len() && lookup_in_scope(
                    self@.vars,
                    ident@,
                    scope as nat,
                ) == Some(self.variables_map@[i as int].slot@),
                None => lookup_in_scope(self@.vars, ident@, scope as nat) is None,
            },
    {
        let ghost vars = self@.vars;
        let mut i: usize = self.variables_map.len();
        assert(vars.take(i as int) =~= vars);
        while i > 0
            invariant
                i <= self.variables_map@.len(),
                vars == self@.vars,
                vars.len() == self.variables_map@.len(),
                lookup_in_scope(vars, ident@, scope as nat) == lookup_in_scope(
                    vars.take(i as int),
                    ident@,
                    scope as nat,
                ),
            decreases i,
        {
            i -= 1;
            let entry = &self.variables_map[i];
            proof {
                let part = vars.take(i + 1);
                assert(part.last() == vars[i as int]);
                assert(part.drop_last() =~= vars.take(i as int));
                assert(vars[i as int] == self.variables_map@[i as int]@);
            }
            if entry.scope == scope && entry.slot._ident == *ident {
                return Some(i);
            }
        }
        assert(vars.take(0) =~= Seq::empty());
        None
    }

    /// The position in the table of the slot that `ident` names here.
    fn resolve(&self, ident: &String) -> (r: Option<usize>)
        ensures
            match r {
                Some(i) => i < self.variables_map@.len() && self@.lookup(ident@) == Some(
                    self.variables_map@[i as int].slot@,
                ),
                None => self@.lookup(ident@) is None,
            },
    {
        let ghost scopes = self@.scopes;
        let mut k: usize = self.scoped_blocks.len();
        assert(scopes.take(k as int) =~= scopes);
        while k > 0
            invariant
                k <= self.scoped_blocks@.len(),
                scopes == self@.scopes,
                scopes.len() == self.scoped_blocks@.len(),
                self@.lookup(ident@) == lookup_in(self@.vars, scopes.take(k as int), ident@),
            decreases k,
        {
            k -= 1;
            proof {
                let part = scopes.take(k + 1);
                assert(part.last() == scopes[k as int]);
                assert(part.drop_last() =~= scopes.take(k as int));
            }
            let found = self.find_in_scope(ident, self.scoped_blocks[k]);
            if found.is_some() {
                return found;
            }
        }
        assert(scopes.take(0) =~= Seq::empty());
        None
    }

    /// The slot that `ident` names in the open scopes, innermost first.
    pub fn find_variable(&self, ident: String) -> (r: Option<VariableMap>)
        ensures
            match r {
                Some(v) => self@.lookup(ident@) == Some(v@),
                None => self@.lookup(ident@) is None,
            },
    {
        match self.resolve(&ident) {
            Some(i) => Some(self.variables_map[i].slot.clone()),
            None => None,
        }
    }
}

impl Compiler {
    /// Appends one line to the instruction buffer.
    pub(crate) fn emit(&mut self, ins: Instruction)
        requires
            old(self).wf(),
        ensures
            final(self).wf(),
            final(self)@ == old(self)@.emit(ins@),
    {
        self.instruct_buf.push(ins);
        assert(self@.code =~= old(self)@.code.push(ins@));
        assert(self@ == old(self)@.emit(ins@));
    }

    pub(crate) fn emit_plain(&mut self, text: &str)
        requires
            old(self).wf(),
        ensures
            final(self).wf(),
            final(self)@ == old(self)@.plain(text@),
    {
        self.emit(Instruction::Plain(String::from_str(text)));
    }

    pub(crate) fn emit_push(&mut self, operand: &str)
        requires
            old(self).wf(),
        ensures
            final(self).wf(),
            final(self)@ == old(self)@.push(operand@),
    {
        self.emit(Instruction::Push(String::from_str(operand)));
    }

    pub(crate) fn emit_pop(&mut self, operand: &str)
        requires
            old(self).wf(),
        ensures
            final(self).wf(),
            final(self)@ == old(self)@.pop(operand@),
    {
        self.emit(Instruction::Pop(String::from_str(operand)));
    }

    pub(crate) fn emit_label(&mut self, n: usize)
        requires
            old(self).wf(),
        ensures
            final(self).wf(),
            final(self)@ == old(self)@.label(n as nat),
    {
        self.emit(Instruction::Label(n));
    }

    pub(crate) fn emit_branch(&mut self, jump: Jump, n: usize)
        requires
            old(self).wf(),
        ensures
            final(self).wf(),
            final(self)@ == old(self)@.branch(jump, n as nat),
    {
        self.emit(Instruction::Branch(jump, n));
    }

    /// The number of lines in the instruction buffer.
    pub(crate) fn code_len(&self) -> (r: usize)
        ensures
            r == self@.code.len(),
    {
        self.instruct_buf.len()
    }

    /// The number of lines in the data buffer.
    pub(crate) fn data_len(&self) -> (r: usize)
        ensures
            r == self@.data.len(),
    {
        self.data_buf.len()
    }

    /// Appends two lines to the data buffer.
    pub(crate) fn push_data(&mut self, first: String, second: String)
        requires
            old(self).wf(),
        ensures
            final(self).wf(),
            final(self)@ == (State {
                data: old(self)@.data.push(first@).push(second@),
                ..old(self)@
            }),
    {
        self.data_buf.push(first);
        self.data_buf.push(second);
        assert(self@.data =~= old(self)@.data.push(first@).push(second@));
    }

    /// The slot that `ident` names here, or the error for a name that no
    /// open scope declares.
    pub(crate) fn slot_of(&self, ident: &String) -> (r: Result<VariableMap, CompileError>)
        requires
            self.wf(),
        ensures
            match r {
                Ok(v) => self@.lookup(ident@) == Some(v@) && (v@.item_size == 1 || v@.item_size
                    == 8) && v@.offset + v@.size <= usize::MAX,
                Err(e) => self@.lookup(ident@) is None && e@ == Failure::UndefinedVariable(
                    ident@,
                ),
            },
    {
        match self.resolve(ident) {
            Some(i) => {
                assert(self@.vars[i as int].slot == self.variables_map@[i as int].slot@);
                Ok(self.variables_map[i].slot.clone())
            },
            None => Err(CompileError::UndefinedVariable(ident.clone())),
        }
    }

    /// Whether function `ident` returns a value, if the table holds it.
    pub(crate) fn callee_returns(&self, ident: &String) -> (r: Option<bool>)
        ensures
            match r {
                Some(has_return) => self@.signature(ident@) matches Some(sig) && sig.has_return
                    == has_return,
                None => self@.signature(ident@) is None,
            },
    {
        let ghost funcs = self@.funcs;
        let mut i: usize = self.functions_map.len();
        assert(funcs.take(i as int) =~= funcs);
        while i > 0
            invariant
                i <= self.functions_map@.len(),
                funcs == self@.funcs,
                funcs.len() == self.functions_map@.len(),
                signature_in(funcs, ident@) == signature_in(funcs.take(i as int), ident@),
            decreases i,
        {
            i -= 1;
            proof {
                let part = funcs.take(i + 1);
                assert(part.last() == funcs[i as int]);
                assert(part.drop_last() =~= funcs.take(i as int));
                assert(funcs[i as int] == self.functions_map@[i as int]@);
            }
            if self.functions_map[i].ident == *ident {
                return Some(self.functions_map[i].has_return);
            }
        }
        assert(funcs.take(0) =~= Seq::empty());
        None
    }
}

impl Compiler {
    /// Appends a line of inline assembly to the instruction buffer.
    pub(crate) fn emit_inline(&mut self, text: String)
        requires
            old(self).wf(),
        ensures
            final(self).wf(),
            final(self)@ == old(self)@.emit(Instr::Inline(text@)),
    {
        self.emit(Instruction::Inline(text));
    }

    /// The bytes of the frame handed out so far.
    pub(crate) fn frame_bytes(&self) -> (r: usize)
        ensures
            r == self@.mem_offset,
    {
        self.mem_offset
    }

    /// Hands out the next `size` bytes of the frame.
    pub(crate) fn grow_frame(&mut self, size: usize)
        requires
            old(self).wf(),
            old(self)@.mem_offset + size <= usize::MAX,
        ensures
            final(self).wf(),
            final(self)@ == (State {
                mem_offset: old(self)@.mem_offset + size as nat,
                ..old(self)@
            }),
    {
        self.mem_offset = self.mem_offset + size;
        assert(self@ == (State { mem_offset: old(self)@.mem_offset + size as nat, ..old(self)@ }));
        assert forall|i: int| 0 <= i < self@.vars.len() implies (#[trigger] self@.vars[i]).slot.fits(
            self@.mem_offset,
        ) by {
            assert(old(self)@.vars[i].slot.fits(old(self)@.mem_offset));
        }
    }

    /// Declares `slot` in the current scope.
    pub(crate) fn bind(&mut self, slot: VariableMap)
        requires
            old(self).wf(),
            slot@.fits(old(self)@.mem_offset),
        ensures
            final(self).wf(),
            final(self)@ == old(self)@.bind(slot@),
    {
        let scope: usize = if self.scoped_blocks.len() > 0 {
            self.scoped_blocks[self.scoped_blocks.len() - 1]
        } else {
            self.block_id
        };
        assert(scope as nat == self@.current_scope());
        let ghost binding = Binding { scope: scope as nat, slot: slot@ };
        self.variables_map.push(Scoped { scope, slot });
        assert(self@.vars =~= old(self)@.vars.push(binding));
        assert(self@ == old(self)@.bind(binding.slot));
        assert forall|i: int| 0 <= i < self@.vars.len() implies (#[trigger] self@.vars[i]).slot.fits(
            self@.mem_offset,
        ) by {
            if i < old(self)@.vars.len() {
                assert(self@.vars[i] == old(self)@.vars[i]);
            }
        }
    }

    /// Whether the block counter can count one more block.
    pub(crate) fn can_open_scope(&self) -> (r: bool)
        ensures
            r == (self@.block_id < usize::MAX),
    {
        self.block_id < usize::MAX
    }

    /// Adds a warning to those told so far.
    pub(crate) fn warn(&mut self, warning: Warning)
        requires
            old(self).wf(),
        ensures
            final(self).wf(),
            final(self)@ == old(self)@.warn(warning),
    {
        self.warnings.push(warning);
        assert(self@ == old(self)@.warn(warning));
        assert(self@.slots_fit()) by {
            assert(old(self)@.slots_fit());
        }
    }

    /// What the compilation has told so far, in order.
    pub fn warnings(&self) -> (r: &Vec<Warning>)
        ensures
            r@ == self@.warnings,
    {
        &self.warnings
    }

    /// Opens the scope of a block under the next id.
    pub(crate) fn open_scope(&mut self)
        requires
            old(self).wf(),
            old(self)@.block_id < usize::MAX,
        ensures
            final(self).wf(),
            final(self)@ == open_scope(old(self)@),
    {
        self.block_id = self.block_id + 1;
        self.scoped_blocks.push(self.block_id);
        assert(self@.scopes =~= old(self)@.scopes.push(self.block_id as nat));
        assert(self@ == open_scope(old(self)@));
        assert forall|i: int| 0 <= i < self@.scopes.len() implies #[trigger] self@.scopes[i]
            <= self@.block_id by {
            if i < old(self)@.scopes.len() {
                assert(self@.scopes[i] == old(self)@.scopes[i]);
            }
        }
        assert(self@.slots_fit()) by {
            assert(old(self)@.slots_fit());
        }
    }

    /// Closes the innermost scope.
    pub(crate) fn close_scope(&mut self)
        requires
            old(self).wf(),
            old(self)@.scopes.len() > 0,
        ensures
            final(self).wf(),
            final(self)@ == close_scope(old(self)@),
    {
        self.scoped_blocks.pop();
        assert(self@.scopes =~= old(self)@.scopes.drop_last());
        assert(self@ == close_scope(old(self)@));
        assert forall|i: int| 0 <= i < self@.scopes.len() implies #[trigger] self@.scopes[i]
            <= self@.block_id by {
            assert(self@.scopes[i] == old(self)@.scopes[i]);
        }
        assert(self@.slots_fit()) by {
            assert(old(self)@.slots_fit());
        }
    }
}

/// A frame for two bytes or more takes twice the frame for half of them.
proof fn lemma_frame_size_step(m: nat)
    requires
        m > 1,
    ensures
        frame_size(m) == 2 * frame_size(m / 2),
        frame_size(m) >= 4,
{
    lemma_frame_size_least(m / 2);
}

/// No frame is smaller than two bytes.
proof fn lemma_frame_size_least(m: nat)
    ensures
        frame_size(m) >= 2,
    decreases m,
{
    if m > 1 {
        lemma_frame_size_least(m / 2);
    }
}

impl Compiler {
    /// Whether the current function has any slot.
    pub(crate) fn has_locals(&self) -> (r: bool)
        ensures
            r == (self@.vars.len() > 0),
    {
        self.variables_map.len() > 0
    }

    /// Whether any scope is open.
    pub(crate) fn in_scope(&self) -> (r: bool)
        ensures
            r == (self@.scopes.len() > 0),
    {
        self.scoped_blocks.len() > 0
    }

    /// The bytes that the prologue takes from the stack for the bytes handed
    /// out: the least power of two above them, which is at most twice as
    /// many; nothing where it cannot be counted.
    pub(crate) fn frame_size(&self) -> (r: Option<usize>)
        ensures
            match r {
                Some(k) => k == frame_size(self@.mem_offset),
                None => frame_size(self@.mem_offset) > usize::MAX,
            },
            self@.mem_offset >= 1 ==> {
                &&& frame_size(self@.mem_offset) == pow2(
                    (log(2, self@.mem_offset as int) + 1) as nat,
                )
                &&& self@.mem_offset < frame_size(self@.mem_offset) <= 2 * self@.mem_offset
                &&& 2 * self@.mem_offset <= usize::MAX ==> r is Some
            },
    {
        let ghost n = self.mem_offset as nat;
        let mut k: usize = 2;
        let mut m: usize = self.mem_offset;
        while m > 1
            invariant
                n == self@.mem_offset,
                frame_size(n) * 2 == k * frame_size(m as nat),
                k >= 2,
            decreases m,
        {
            proof {
                lemma_frame_size_step(m as nat);
            }
            let ghost rest = frame_size((m / 2) as nat);
            if k > usize::MAX / 2 {
                assert(frame_size(n) > usize::MAX) by (nonlinear_arith)
                    requires
                        frame_size(n) * 2 == k * frame_size(m as nat),
                        frame_size(m as nat) >= 4,
                        k > usize::MAX / 2,
                ;
                proof {
                    if n >= 1 {
                        lemma_frame_size(n);
                        lemma_frame_size_formula(n);
                    }
                }
                return None;
            }
            assert((k * 2) * rest == k * (2 * rest)) by (nonlinear_arith);
            k = k * 2;
            m = m / 2;
        }
        assert(frame_size(n) == k) by (nonlinear_arith)
            requires
                frame_size(n) * 2 == k * frame_size(m as nat),
                frame_size(m as nat) == 2,
        ;
        proof {
            if n >= 1 {
                lemma_frame_size(n);
                lemma_frame_size_formula(n);
            }
        }
        Some(k)
    }

    /// Starts a function: the tables and counters of the last one are
    /// dropped, scope 0 is opened, the entry label and three free lines are
    /// written.
    pub(crate) fn begin_function(&mut self, ident: &String)
        ensures
            final(self).wf(),
            final(self)@ == begin_function(old(self)@, ident@),
    {
        self.scoped_blocks = Vec::new();
        self.scoped_blocks.push(0);
        self.block_id = 0;
        self.mem_offset = 0;
        self.variables_map = Vec::new();
        let ghost fresh = State {
            scopes: seq![0nat],
            block_id: 0,
            vars: Seq::empty(),
            mem_offset: 0,
            ..old(self)@
        };
        assert(self@.scopes =~= fresh.scopes);
        assert(self@.vars =~= fresh.vars);
        assert(self@ == fresh);
        let name = if str_eq(ident.as_str(), "main") {
            String::from_str("_start")
        } else {
            ident.clone()
        };
        self.emit(Instruction::Entry(name));
        self.emit(Instruction::Reserved);
        self.emit(Instruction::Reserved);
        self.emit(Instruction::Reserved);
    }

    /// Enters a function in the function table.
    pub(crate) fn register(&mut self, ident: String, has_return: bool)
        requires
            old(self).wf(),
        ensures
            final(self).wf(),
            final(self)@ == (State {
                funcs: old(self)@.funcs.push(Signature { ident: ident@, has_return }),
                ..old(self)@
            }),
    {
        let ghost sig = Signature { ident: ident@, has_return };
        self.functions_map.push(Callee { ident, has_return });
        assert(self@.funcs =~= old(self)@.funcs.push(sig));
        assert(self@ == (State { funcs: old(self)@.funcs.push(sig), ..old(self)@ }));
        assert(self@.slots_fit()) by {
            assert(old(self)@.slots_fit());
        }
    }

    /// Writes the prologue to the three lines kept free at `at`.
    pub(crate) fn patch_prologue(&mut self, at: usize, size: usize)
        requires
            old(self).wf(),
            at + 2 < old(self)@.code.len(),
            size == frame_size(old(self)@.mem_offset),
        ensures
            final(self).wf(),
            final(self)@ == patch_prologue(old(self)@, at as int),
    {
        let mut text = String::from_str("sub rsp, ");
        push_decimal(&mut text, size as u64);
        let ghost first = Instr::Push("rbp"@);
        let ghost second = Instr::Plain("mov rbp, rsp"@);
        let ghost third = Instr::Plain("sub rsp, "@ + decimal(size as nat));
        let lines: usize = self.instruct_buf.len();
        assert(self@.code.len() == lines);
        self.instruct_buf.set(at, Instruction::Push(String::from_str("rbp")));
        self.instruct_buf.set(at + 1, Instruction::Plain(String::from_str("mov rbp, rsp")));
        self.instruct_buf.set(at + 2, Instruction::Plain(text));
        assert(self@.code =~= old(self)@.code.update(at as int, first).update(at + 1, second).update(
            at + 2,
            third,
        ));
        assert(self@ == patch_prologue(old(self)@, at as int));
        assert(self@.slots_fit()) by {
            assert(old(self)@.slots_fit());
        }
    }

    /// The text of the two buffers, line by line.
    pub fn output(&self) -> (r: (Vec<String>, Vec<String>))
        ensures
            views(r.0@) == texts(self@.code),
            views(r.1@) == self@.data,
    {
        let code = render_all(&self.instruct_buf);
        let mut data: Vec<String> = Vec::new();
        let mut i: usize = 0;
        while i < self.data_buf.len()
            invariant
                i <= self.data_buf.len(),
                data@.len() == i,
                forall|j: int| 0 <= j < i ==> (#[trigger] data@[j])@ == self.data_buf@[j]@,
            decreases self.data_buf.len() - i,
        {
            data.push(self.data_buf[i].clone());
            i += 1;
        }
        assert(views(data@) =~= self@.data);
        (code, data)
    }
}

} // verus!
