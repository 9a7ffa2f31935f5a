//! Helpers for diagnostics output.
pub mod format;
pub mod pretty_printer;

pub use pretty_printer::{Paint, Palette, PrettyPrinter};
