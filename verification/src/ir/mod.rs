pub mod block;
pub mod generator;
pub mod type_checker;
