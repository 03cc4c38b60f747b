//! A single-pass bytecode compiler and stack-based virtual machine for a
//! small dynamically typed imperative language.
//!
//! Source text is scanned into tokens, parsed into an abstract syntax tree,
//! lowered to a byte-encoded instruction stream per function, and executed by
//! a stack machine with per-call frames and a global environment.
//!
//! Numbers of the language are IEEE-754 doubles.  The library stores them as
//! their 64-bit pattern and reasons about them at the bit level; the four
//! arithmetic operations, number formatting and number-literal parsing are
//! performed by the embedding program, which drives the virtual machine
//! through [`vm::VM::step`] and answers its requests.

pub mod ast;
pub mod chunk;
pub mod compiler;
pub mod instr;
pub mod lowering;
pub mod num;
pub mod parser;
pub mod printer;
pub mod scanner;
pub mod text;
pub mod token;
pub mod value;
pub mod vm;
