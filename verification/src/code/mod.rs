//! 6502 assembly: the instructions, their allocation of registers, their
//! generation from the low-level representation and their optimization.

pub mod block;
pub mod register;

pub use self::block::{Code, CodeBlock, Global, Parameter};
pub mod optimizer;
pub mod generator;
