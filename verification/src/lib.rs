//! A tree-walking evaluator for a small expression language.
//!
//! Programs arrive as an already-built abstract syntax tree ([`ast::Term`]).
//! The evaluator walks the tree, threading a variable context and an
//! argument stack, and produces a value together with the lines emitted by
//! `Print` nodes.  The semantics of every construct is stated by the
//! specification interpreter in `semantics`, and the executable evaluator
//! is proved to agree with it.
pub mod ast;
pub mod semantics;
pub mod eval;
pub mod laws;
