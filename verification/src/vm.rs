//! The stack machine that runs a chunk.
pub mod errors;
pub mod machine;

pub use errors::RuntimeError;
pub use machine::{Machine, Outcome, Signal, Stack, VMResult, VM};
