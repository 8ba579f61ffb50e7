//! The state of a compilation as specifications see it: the two buffers,
//! the symbol tables, the scope chain and the frame counter.

use vstd::prelude::*;
use crate::instr::{Instr, Jump};

verus! {

/// A frame slot: `size` bytes that end `offset + size` bytes under `rbp`.
pub struct Slot {
    pub ident: Seq<char>,
    pub offset: nat,
    pub size: nat,
    /// The width of one element; the whole size for a scalar.
    pub item_size: nat,
    pub is_mut: bool,
}

impl Slot {
    /// The distance from `rbp` down to the lowest byte of the slot.
    pub open spec fn below(self) -> nat {
        self.offset + self.size
    }

    /// The slot has an element width that the target can address and lies
    /// within the first `limit` bytes of the frame.
    pub open spec fn fits(self, limit: nat) -> bool {
        &&& self.item_size == 1 || self.item_size == 8
        &&& self.offset + self.size <= limit
    }
}

/// A variable of the symbol table: a slot, keyed by its name and by the
/// scope that declared it.
pub struct Binding {
    pub scope: nat,
    pub slot: Slot,
}

/// A function of the function table.
pub struct Signature {
    pub ident: Seq<char>,
    pub has_return: bool,
}

/// What a compilation tells without stopping.
#[derive(Clone, Copy, Debug, PartialEq, Eq, Structural)]
pub enum Warning {
    /// A statement that is an expression other than a call: it has no
    /// effect and is left out.
    NoEffect,
}

/// Why a compilation stops.
pub enum Failure {
    /// A variable is used that no open scope declares.
    UndefinedVariable(Seq<char>),
    /// A function is called that the function table does not hold.
    UndefinedFunction(Seq<char>),
    /// A variable declared with `:=` is assigned to.
    ImmutableVariable(Seq<char>),
    /// The left side of an assignment is neither a variable nor an element.
    NotAssignable,
    /// A variable is declared outside the frame.
    StaticVariable,
    /// A call or a function has more arguments than there are registers.
    TooManyArguments,
    /// The address of something other than a variable is taken.
    AddressOperand,
    /// An array is declared whose elements are neither `int` nor `char`.
    ArrayElement,
    /// `break` or `continue`.
    LoopControl,
    /// An inline assembly line has a `%` that no identifier follows.
    EmptySubstitution,
    /// The locals of a function do not fit the address space.
    FrameTooLarge,
    /// A function has locals, none of which takes any room.
    EmptyFrame,
    /// A scope is still open when the program ends.
    ScopeNotCleared,
    /// An import names a file that is not among the sources.
    UnknownSource(Seq<char>),
    /// Imports are nested more deeply than there are sources.
    ImportDepth,
    /// A function has more blocks than can be numbered.
    BlockLimit,
}

/// A compilation that stopped: why, and the state it stopped in.
pub struct Stopped {
    pub failure: Failure,
    pub state: State,
}

impl Failure {
    /// The diagnostic of the failure, one line of text.
    pub open spec fn message(self) -> Seq<char> {
        match self {
            Failure::UndefinedVariable(name) => "Error: Trying to access an undefined variable ("@
                + name + ")"@,
            Failure::UndefinedFunction(name) => "Error: Function "@ + name
                + " is not available in this scope"@,
            Failure::ImmutableVariable(name) => "Error: Variable "@ + name
                + " is not mutable. Did you forget to use `=` instead of `:=`?"@,
            Failure::NotAssignable => "Error: Expected a variable on the left of an assignment"@,
            Failure::StaticVariable => "Error: Static variables are not supported"@,
            Failure::TooManyArguments => "Error: More than six arguments are not supported"@,
            Failure::AddressOperand => "Error: Only the address of a variable can be taken"@,
            Failure::ArrayElement => "Error: Unsupported array element type"@,
            Failure::LoopControl => "Error: break and continue are not supported"@,
            Failure::EmptySubstitution => "Error: Invalid identifier for inline assembly"@,
            Failure::FrameTooLarge =>
                "Error: The locals of a function do not fit the address space"@,
            Failure::EmptyFrame => "Error: The locals of a function take no room"@,
            Failure::ScopeNotCleared => "Error: Scope has not been cleared"@,
            Failure::UnknownSource(path) => "Error: Can not read the file "@ + path,
            Failure::ImportDepth => "Error: Imports are nested too deeply"@,
            Failure::BlockLimit => "Error: A function has too many blocks"@,
        }
    }
}

/// The latest binding of `ident` in scope `scope`, if there is one.
pub open spec fn lookup_in_scope(vars: Seq<Binding>, ident: Seq<char>, scope: nat) -> Option<Slot>
    decreases vars.len(),
{
    if vars.len() == 0 {
        None
    } else if vars.last().scope == scope && vars.last().slot.ident == ident {
        Some(vars.last().slot)
    } else {
        lookup_in_scope(vars.drop_last(), ident, scope)
    }
}

/// The binding of `ident` in the innermost scope of the chain that has one.
/// The innermost scope is the last of `scopes`.
pub open spec fn lookup_in(vars: Seq<Binding>, scopes: Seq<nat>, ident: Seq<char>) -> Option<Slot>
    decreases scopes.len(),
{
    if scopes.len() == 0 {
        None
    } else {
        match lookup_in_scope(vars, ident, scopes.last()) {
            Some(slot) => Some(slot),
            None => lookup_in(vars, scopes.drop_last(), ident),
        }
    }
}

/// The latest signature registered under `ident`.
pub open spec fn signature_in(funcs: Seq<Signature>, ident: Seq<char>) -> Option<Signature>
    decreases funcs.len(),
{
    if funcs.len() == 0 {
        None
    } else if funcs.last().ident == ident {
        Some(funcs.last())
    } else {
        signature_in(funcs.drop_last(), ident)
    }
}

/// The state of a compilation.
pub struct State {
    /// The instruction buffer.
    pub code: Seq<Instr>,
    /// The data buffer, line by line.
    pub data: Seq<Seq<char>>,
    /// The open scopes, outermost first.
    pub scopes: Seq<nat>,
    /// The block counter: the id of the block opened last.
    pub block_id: nat,
    /// Every slot of the current function, in the order of declaration.
    pub vars: Seq<Binding>,
    pub funcs: Seq<Signature>,
    /// The bytes of the frame handed out so far.
    pub mem_offset: nat,
    /// What the compilation has told so far.
    pub warnings: Seq<Warning>,
}

impl State {
    /// The state of a compilation that has not begun.
    pub open spec fn initial() -> State {
        State {
            code: Seq::empty(),
            data: Seq::empty(),
            scopes: Seq::empty(),
            block_id: 0,
            vars: Seq::empty(),
            funcs: Seq::empty(),
            mem_offset: 0,
            warnings: Seq::empty(),
        }
    }

    /// Every slot can be addressed and lies within the bytes handed out.
    pub open spec fn slots_fit(self) -> bool {
        forall|i: int|
            0 <= i < self.vars.len() ==> (#[trigger] self.vars[i]).slot.fits(self.mem_offset)
    }

    /// Every slot lies within the bytes handed out, and every scope, open
    /// or the scope of a slot, was numbered by the block counter.
    pub open spec fn wf(self) -> bool {
        &&& self.mem_offset <= usize::MAX
        &&& self.slots_fit()
        &&& forall|i: int| 0 <= i < self.scopes.len() ==> #[trigger] self.scopes[i] <= self.block_id
        &&& forall|i: int|
            0 <= i < self.vars.len() ==> (#[trigger] self.vars[i]).scope <= self.block_id
    }

    /// The compilation stops here.
    pub open spec fn fail(self, failure: Failure) -> Result<State, Stopped> {
        Err(Stopped { failure, state: self })
    }

    /// The state with one more warning.
    pub open spec fn warn(self, warning: Warning) -> State {
        State { warnings: self.warnings.push(warning), ..self }
    }

    /// The state with one more line in the instruction buffer.
    pub open spec fn emit(self, i: Instr) -> State {
        State { code: self.code.push(i), ..self }
    }

    /// The state with one more instruction that is neither a push, a pop, a
    /// label nor a jump.
    pub open spec fn plain(self, text: Seq<char>) -> State {
        self.emit(Instr::Plain(text))
    }

    /// The state with one more push.
    pub open spec fn push(self, operand: Seq<char>) -> State {
        self.emit(Instr::Push(operand))
    }

    /// The state with one more pop.
    pub open spec fn pop(self, operand: Seq<char>) -> State {
        self.emit(Instr::Pop(operand))
    }

    /// The state with the definition of label `n` added.
    pub open spec fn label(self, n: nat) -> State {
        self.emit(Instr::Label(n))
    }

    /// The state with a jump to label `n` added.
    pub open spec fn branch(self, jump: Jump, n: nat) -> State {
        self.emit(Instr::Branch(jump, n))
    }

    /// The scope that a declaration goes to: the innermost open one, or the
    /// block opened last when none is open.
    pub open spec fn current_scope(self) -> nat {
        if self.scopes.len() > 0 {
            self.scopes.last()
        } else {
            self.block_id
        }
    }

    /// The slot that `ident` names here.
    pub open spec fn lookup(self, ident: Seq<char>) -> Option<Slot> {
        lookup_in(self.vars, self.scopes, ident)
    }

    /// The signature of function `ident`.
    pub open spec fn signature(self, ident: Seq<char>) -> Option<Signature> {
        signature_in(self.funcs, ident)
    }

    /// The state after `slot` was declared in the current scope.
    pub open spec fn bind(self, slot: Slot) -> State {
        State { vars: self.vars.push(Binding { scope: self.current_scope(), slot }), ..self }
    }
}

} // verus!
