//! Function definitions.

use vstd::prelude::*;
use crate::parser::block::Block;
use crate::parser::stmt::{block_view, StmtView};
use crate::parser::stmt::VariableType;

verus! {

/// A parameter of a function.
#[derive(Debug, PartialEq)]
pub struct FunctionArg {
    pub ident: String,
    pub typedef: VariableType,
}

/// A function definition.
#[derive(Debug, PartialEq)]
pub struct Function {
    pub ident: String,
    pub args: Vec<FunctionArg>,
    pub ret_type: Option<VariableType>,
    pub block: Block,
}

/// A function as specifications see it.
pub struct FunctionView {
    pub ident: Seq<char>,
    /// The name and the type of each parameter.
    pub args: Seq<(Seq<char>, VariableType)>,
    pub ret_type: Option<VariableType>,
    pub block: Seq<StmtView>,
}

/// The names and types of a parameter list.
pub open spec fn arg_views(args: Seq<FunctionArg>) -> Seq<(Seq<char>, VariableType)> {
    Seq::new(args.len(), |i: int| (args[i].ident@, args[i].typedef))
}

/// The view of a function.
pub open spec fn function_view(f: Function) -> FunctionView {
    FunctionView {
        ident: f.ident@,
        args: arg_views(f.args@),
        ret_type: f.ret_type,
        block: block_view(f.block),
    }
}

} // verus!
