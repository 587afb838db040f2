//! The low-level representation: runs of simple statements over memory
//! locations, grouped into stack frames.

pub mod binop;
pub mod block;
pub mod builder;
pub mod common;
pub mod debug_text;
pub mod generator;
pub mod optimizer;
