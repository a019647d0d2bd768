pub mod ast;
pub mod bindings;
pub mod builtins;
pub mod checker;
pub mod env;
pub mod error;
pub mod evaluator;
pub mod lexer;
pub mod parser;
pub mod program;
pub mod project;
pub mod text;
