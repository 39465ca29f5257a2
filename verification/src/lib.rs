//! A small register-based virtual machine.
//!
//! The machine executes a closed instruction set against a fixed bank of
//! six signed 32-bit registers.  Symbolic jump targets are resolved to
//! program positions by a pre-pass that builds a jump table, and programs
//! run either in batch mode (a whole program at once, from its `main`
//! label to a halt instruction) or incrementally (one instruction at a
//! time against persistent machine state, as a line-oriented shell does).
//!
//! Assembly source text becomes instruction values through the lexer
//! and parser modules; the disassembler renders instruction values back
//! to source form.  Every module's behaviour is stated against
//! specification-level models — character sequences for text, a
//! small-step semantics for execution — and proved.

pub mod disassembler;
pub mod equivalence;
pub mod instructions;
pub mod jump_table;
pub mod lexer;
pub mod parser;
pub mod registers;
pub mod runner;
pub mod util;
pub mod vm;
