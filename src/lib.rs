//! Front end of a small scripting language: tokens, the syntax tree, a
//! precedence-climbing parser, a generic tree rewriter, and a minimal
//! evaluator with its built-in functions.
pub mod ast;
pub mod builtins;
pub mod describe;
pub mod evaluator;
pub mod grammar;
pub mod laws;
pub mod lexer;
pub mod model;
pub mod modify;
pub mod object;
pub mod order;
pub mod parser;
pub mod render;
pub mod token;
