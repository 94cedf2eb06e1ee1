//! Front end for a small C-like scripting language: a lexer that turns source
//! text into a token stream, and a recursive-descent parser with
//! operator-precedence expression handling that turns the token stream into an
//! abstract syntax tree, accumulating recoverable syntax errors instead of
//! stopping at the first one.

pub mod ast;
pub mod lexer;
pub mod parser;
pub mod repl;
pub mod tokens;
