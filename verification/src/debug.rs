//! Listings of compiled code.
pub mod disassembler;

pub use disassembler::Disassembler;
