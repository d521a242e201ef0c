//! The language: its tokens, its syntax, its values and its interpreter.
pub mod diagnostic;
pub mod environment;
pub mod expr;
pub mod grammar;
pub mod interpreter;
pub mod lexer;
pub mod machine;
pub mod number;
pub mod operators;
pub mod parser;
pub mod runtime_error;
pub mod semantics;
pub mod stmt;
pub mod text;
pub mod token;

pub use diagnostic::{Diagnostic, DiagnosticView};
pub use environment::Environment;
pub use expr::{BinaryOp, Expr, ExprView, Literal, LiteralView, LogicalOp, UnaryOp};
pub use interpreter::{Interpreter, InterpreterMode, InterpreterProperties};
pub use machine::{Reply, Request};
pub use lexer::Lexer;
pub use number::Number;
pub use parser::Parser;
pub use runtime_error::{ErrorKind, RuntimeError, RuntimeErrorView};
pub use stmt::{Stmt, StmtView};
pub use token::{Token, TokenType, TokenView};
