//! The single-pass compiler from source text to bytecode, with its scanner.
pub mod compiler;
pub mod driver;
pub mod grammar;
pub mod parser;
pub mod scanner;
pub mod source;
pub mod token;

pub use driver::{compile, numerals_of, scan_all};
pub use compiler::{CompileError, CompileResult, Compiler};
pub use grammar::{CompilerState, Diagnostic, Numeral};
pub use parser::{ConsumeError, ParseFn, ParseRule, Parser};
pub use scanner::Scanner;
pub use source::Source;
pub use token::{Keyword, Position, Precedence, Token, TokenKind};
