//! An extensible tokenizer/parser/evaluator pipeline for a small expression
//! language, driven by pluggable handlers rather than a fixed grammar.
//!
//! Independently authored lexing and parsing plugins register themselves,
//! claim ownership of leading characters, and cooperate through a shared
//! mutable evaluation context, without the core knowing their concrete types
//! in advance.

pub mod ast;
pub mod errors;
pub mod evaluator;
pub mod lexer;
pub mod lexer_plugins;
pub mod parser;
pub mod plugins;
pub mod runtime;
pub mod state;
pub mod value;

pub use errors::EvalError;
pub use errors::LexerError;
pub use errors::ParseError;
pub use runtime::Runtime;
pub use state::State;
pub use value::Value;
