//! Front end of the Ezcript scripting language: a lexer that turns source text
//! into line-stamped tokens, and a parser that turns the tokens into a program
//! of statements while collecting the errors it meets.

pub mod text;
pub mod tokens;
pub mod result;
pub mod grammar;
pub mod lexer;
pub mod expressions;
pub mod statements;
pub mod ast;
pub mod syntax;
pub mod parser;
pub mod utils;
pub mod laws;
