//! A small assembly language toolchain: a lexer and two-pass compiler that
//! turn source text into a flat sequence of fixed-width instructions, and a
//! register-based virtual machine that executes that sequence.

pub mod expr;
pub mod instruction;
pub mod lexer;
pub mod parser;
pub mod symbol;
pub mod text;
pub mod token;
pub mod vm;
