//! A compiler for the Hassel language, targeting the 6502 processor.

pub mod base_type;
pub mod type_expr;
pub mod src_tag;
pub mod text;
pub mod code;
pub mod symbol_table;
pub mod error;
pub mod parse;
pub mod types;
pub mod llir;
pub mod ir;
pub mod compiler;

pub use crate::compiler::{Compiler, CompilerOptions, CompilerOptionsBuilder, CompilerOutput};
