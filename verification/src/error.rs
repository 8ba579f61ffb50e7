//! Why a compilation stops.

use vstd::prelude::*;
use crate::state::{Failure, State, Stopped};

verus! {

/// The errors of the compiler. Each one ends the compilation.
#[derive(Debug)]
pub enum CompileError {
    /// A variable is used that no open scope declares.
    UndefinedVariable(String),
    /// A function is called that the function table does not hold.
    UndefinedFunction(String),
    /// A variable declared with `:=` is assigned to.
    ImmutableVariable(String),
    /// The left side of an assignment is neither a variable nor an element.
    NotAssignable,
    /// A variable is declared outside the frame.
    StaticVariable,
    /// A call or a function has more arguments than there are registers.
    TooManyArguments,
    /// The address of something other than a variable is taken.
    AddressOperand,
    /// An array is declared whose elements are neither `int` nor `char`.
    ArrayElement,
    /// `break` or `continue`.
    LoopControl,
    /// An inline assembly line has a `%` that no identifier follows.
    EmptySubstitution,
    /// The locals of a function do not fit the address space.
    FrameTooLarge,
    /// A function has locals, none of which takes any room.
    EmptyFrame,
    /// A scope is still open when the program ends.
    ScopeNotCleared,
    /// An import names a file that is not among the sources.
    UnknownSource(String),
    /// Imports are nested more deeply than there are sources.
    ImportDepth,
    /// A function has more blocks than can be numbered.
    BlockLimit,
}

impl View for CompileError {
    type V = Failure;

    open spec fn view(&self) -> Failure {
        match *self {
            CompileError::UndefinedVariable(name) => Failure::UndefinedVariable(name@),
            CompileError::UndefinedFunction(name) => Failure::UndefinedFunction(name@),
            CompileError::ImmutableVariable(name) => Failure::ImmutableVariable(name@),
            CompileError::NotAssignable => Failure::NotAssignable,
            CompileError::StaticVariable => Failure::StaticVariable,
            CompileError::TooManyArguments => Failure::TooManyArguments,
            CompileError::AddressOperand => Failure::AddressOperand,
            CompileError::ArrayElement => Failure::ArrayElement,
            CompileError::LoopControl => Failure::LoopControl,
            CompileError::EmptySubstitution => Failure::EmptySubstitution,
            CompileError::FrameTooLarge => Failure::FrameTooLarge,
            CompileError::EmptyFrame => Failure::EmptyFrame,
            CompileError::ScopeNotCleared => Failure::ScopeNotCleared,
            CompileError::UnknownSource(path) => Failure::UnknownSource(path@),
            CompileError::ImportDepth => Failure::ImportDepth,
            CompileError::BlockLimit => Failure::BlockLimit,
        }
    }
}

impl CompileError {
    /// The diagnostic of the error, one line of text.
    pub fn message(&self) -> (r: String)
        ensures
            r@ == self@.message(),
    {
        match self {
            CompileError::UndefinedVariable(name) => {
                let mut r = String::from_str("Error: Trying to access an undefined variable (");
                r.append(name.as_str());
                r.append(")");
                r
            },
            CompileError::UndefinedFunction(name) => {
                let mut r = String::from_str("Error: Function ");
                r.append(name.as_str());
                r.append(" is not available in this scope");
                r
            },
            CompileError::ImmutableVariable(name) => {
                let mut r = String::from_str("Error: Variable ");
                r.append(name.as_str());
                r.append(" is not mutable. Did you forget to use `=` instead of `:=`?");
                r
            },
            CompileError::NotAssignable => String::from_str(
                "Error: Expected a variable on the left of an assignment",
            ),
            CompileError::StaticVariable => String::from_str(
                "Error: Static variables are not supported",
            ),
            CompileError::TooManyArguments => String::from_str(
                "Error: More than six arguments are not supported",
            ),
            CompileError::AddressOperand => String::from_str(
                "Error: Only the address of a variable can be taken",
            ),
            CompileError::ArrayElement => String::from_str(
                "Error: Unsupported array element type",
            ),
            CompileError::LoopControl => String::from_str(
                "Error: break and continue are not supported",
            ),
            CompileError::EmptySubstitution => String::from_str(
                "Error: Invalid identifier for inline assembly",
            ),
            CompileError::FrameTooLarge => String::from_str(
                "Error: The locals of a function do not fit the address space",
            ),
            CompileError::EmptyFrame => String::from_str(
                "Error: The locals of a function take no room",
            ),
            CompileError::ScopeNotCleared => String::from_str(
                "Error: Scope has not been cleared",
            ),
            CompileError::UnknownSource(path) => {
                let mut r = String::from_str("Error: Can not read the file ");
                r.append(path.as_str());
                r
            },
            CompileError::ImportDepth => String::from_str("Error: Imports are nested too deeply"),
            CompileError::BlockLimit => String::from_str("Error: A function has too many blocks"),
        }
    }
}

/// The outcome of a step of the compiler is what the rules give: `Ok` with
/// the state that they give, or the error that they give, with the compiler
/// in the state in which they stop.
pub open spec fn follows(
    outcome: Result<(), CompileError>,
    after: State,
    rule: Result<State, Stopped>,
) -> bool {
    match rule {
        Ok(s) => outcome is Ok && after == s,
        Err(stop) => outcome matches Err(e) && e@ == stop.failure && after == stop.state,
    }
}

} // verus!
