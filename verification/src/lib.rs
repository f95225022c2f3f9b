//! A small scripting language: lexer, parser and interpreter, verified.
//!
//! The language is dynamically typed, with C-like control flow, first-class
//! functions that close over their environment, tables keyed by text, and
//! objects with `var`, `func` and `on` members.
//!
//! - [`lexer`] turns source text into tokens; what it produces is defined by
//!   `lexer::token_at`.
//! - [`grammar`] says what a sequence of tokens parses to, and [`parser`] is
//!   the recursive-descent parser that is proved to compute just that.
//!   [`progress`] proves that parsing always moves forward.
//! - [`semantics`] says what programs mean, and [`interpreter`] is the
//!   tree-walking interpreter that is proved to compute just that.
//!   [`frames`] proves which environments evaluation leaves alone.
//! - [`arith`] and [`builtins`] hold the operators and the built-in
//!   functions.
//! - [`host`] is the floating-point unit, which the caller supplies: the
//!   library holds floats as bit patterns and never computes with them
//!   itself.
//!
//! ```text
//! let program = arcscript::parser::parse(source)?;
//! let mut interpreter = arcscript::interpreter::Interpreter::new(host);
//! interpreter.eval_program(&program)?;
//! print!("{}", interpreter.take_output());
//! ```

pub mod arith;
pub mod ast;
pub mod builtins;
pub mod frames;
pub mod grammar;
pub mod host;
pub mod interpreter;
pub mod lexer;
pub mod parser;
pub mod progress;
pub mod semantics;
pub mod text;
pub mod value;
