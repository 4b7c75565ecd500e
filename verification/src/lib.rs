//! A small dynamically typed, class-based scripting language: scanner, parser,
//! resolver and evaluator, each held to a mathematical model.
//!
//! ```text
//!  source text
//!    → Scanner   → tokens                       (model: scanner::scan_all)
//!    → Parser    → nodes of the syntax tree     (model: grammar::program)
//!    → Resolver  → depth of every local name    (model: binding::resolve_program)
//!    → Interpreter, one step at a time          (model: semantics::step)
//! ```
//!
//! The syntax tree lives in an arena ([`ast::Ast`]); a node is known by its
//! index, under which the resolver records where the names it uses are
//! bound. Scopes, functions, classes and instances are kept the same way, so
//! that values hold them by identity.
//!
//! The evaluator does not run a program by itself. [`interpreter::Interpreter::step`]
//! takes one step and says what it asks of its host: to print a line, to
//! read the clock, or to compute with numbers, which the library holds as
//! bit patterns and never looks into. The host performs the action and
//! hands the answer to the next step, until the step says the run has
//! ended.

pub mod ast;
pub mod ast_printer;
pub mod binding;
pub mod environment;
pub mod error;
pub mod expr;
pub mod functions_lox;
pub mod functions_native;
pub mod grammar;
pub mod interpreter;
pub mod lox_class;
pub mod lox_instance;
pub mod machine;
pub mod names;
pub mod object;
pub mod parser;
pub mod pipeline;
pub mod resolver;
pub mod scanner;
pub mod semantics;
pub mod stmt;
pub mod text;
pub mod token;
