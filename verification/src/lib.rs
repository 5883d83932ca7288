//! A small interpreter for a Lisp-like expression language.
//!
//! A line of text is split into words, each word becomes a token, the tokens
//! are parsed into an expression tree, and the tree is evaluated against an
//! environment of named values. Every function is verified against a
//! mathematical model of the data it works on.

pub mod eval;
pub mod expr;
pub mod laws;
pub mod lexer;
pub mod parser;
pub mod session;
pub mod text;
pub mod value;

pub use eval::{apply, eval, DefineFault, EvalError, LambdaFault};
pub use expr::LispExpression;
pub use lexer::{tokenize, Token};
pub use parser::{parse, parse_list, parse_tokens, ParseError};
pub use session::{interpret, is_exit_command, Reply};
pub use value::{Environment, LispValue};
