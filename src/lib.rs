//! An interpreter for the eight-opcode tape language, with a machine model
//! that every executable step is proved against.

pub mod brackets;
pub mod interpreter;

pub use brackets::BracketPair;
pub use interpreter::{BFInterpreter, RunError, Status};
