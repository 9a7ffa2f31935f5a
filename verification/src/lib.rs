//! A small dynamic language with two engines: a single-pass compiler that
//! emits compact bytecode for a stack machine, and a tree-walking interpreter
//! with a static scope resolver.
//!
//! The library is free of floating point. A number is carried as the bit
//! pattern of an IEEE 754 double; sums, products, quotients and the reading
//! and printing of numerals are asked of the caller.
pub mod bytecode;
pub mod text;
pub mod compiler;
pub mod vm;
pub mod driver;
pub mod utils;
pub mod debug;
pub mod front;
