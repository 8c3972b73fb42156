//! An interpreter for the RV64I base integer instruction set: numeric
//! primitives, an assembly tokenizer and operand parser, an instruction
//! catalog with checked semantics, and a stepping machine with breakpoints.

pub mod build_common;
pub mod catalog;
pub mod dispatch;
pub mod generator;
pub mod instruction;
pub mod interpreter;
pub mod registers;
pub mod rv64_i;
pub mod semantics;
pub mod text;
