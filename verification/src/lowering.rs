//! The lowering rules: what each construct of the language adds to the
//! state of a compilation. The compiler is proved to follow them.

pub mod expr;
pub mod stmt;
pub mod function;
pub mod program;
