//! A compiler from a small typed imperative language to x86-64 assembly in
//! NASM syntax for Linux.
//!
//! The scanner and the parser turn source text into syntax trees; the
//! compiler lowers the trees to lines of assembly. What each of them does
//! is stated by specification functions: the grammar for the first two, the
//! lowering rules for the third. Each is proved to do just that, and the
//! laws say what holds of every output that follows the rules.

pub mod compiler;
pub mod error;
pub mod grammar;
pub mod instr;
pub mod laws;
pub mod lexer;
pub mod lowering;
pub mod operand;
pub mod parser;
pub mod scanner;
pub mod state;
pub mod text;
