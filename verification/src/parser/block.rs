//! Blocks.

use vstd::prelude::*;
use crate::parser::stmt::Stmt;

verus! {

/// A braced sequence of statements; it opens a lexical scope.
#[derive(Debug, PartialEq)]
pub struct Block {
    pub stmts: Vec<Stmt>,
}

} // verus!
