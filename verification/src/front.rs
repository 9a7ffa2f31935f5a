//! The tree-walking interpreter: scanner, parser, resolver and evaluator.
pub mod ast_printer;
pub mod callables;
pub mod environment;
pub mod errors;
pub mod expr;
pub mod interpreter;
pub mod parser;
pub mod report;
pub mod resolver;
pub mod scanner;
pub mod scoping;
pub mod semantics;
pub mod stmt;
pub mod syntax;
pub mod token;
pub mod token_type;
pub mod value;

pub use expr::{
    Assign, Binary, Call, Expr, Get, Grouping, Literal, SetExpr, Super, Ternary, This, Unary,
    Variable,
};
pub use ast_printer::AstPrinter;
pub use callables::{Class, Clock, Function, Instance};
pub use environment::{Environment, ScopedEnvironment, Scopes};
pub use errors::{
    ComposedError, Failure, FatalError, IncorrectArgumentsError, RuntimeError, TypeError,
    UndefinedPropertyError, UndefinedVariableError,
};
pub use interpreter::{Interpreter, ReturnObject, StatementResult};
pub use parser::Parser;
pub use report::Report;
pub use resolver::{ExternalFunctions, Resolver, VariableStatus};
pub use scoping::{ClassType, FunctionType};
pub use scanner::Scanner;
pub use stmt::{Block, ClassDecl, Declaration, FunctionDecl, If, Return, Stmt, While};
pub use token::Token;
pub use token_type::{Kind, TokenType};
pub use value::Value;
