//! The grammar of the language, as functions from tokens to syntax trees.
//!
//! Each function takes the tokens and the position of the first token of a
//! construct. Where the construct is there, it returns the tree and the
//! number of tokens that the construct takes beyond its first; otherwise
//! the error at the token where the construct stops being one.

pub mod expr;
pub mod program;
pub mod stmt;
pub mod tokens;
