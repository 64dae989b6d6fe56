//! A small ahead-of-time compiler core for a C-like expression language.
//!
//! The crate lowers a parsed module (an abstract syntax tree of functions and
//! struct declarations) to a low-level instruction representation.  The pieces
//! are:
//!
//! * [`ast`] — the program representation handed over by a front end;
//! * [`context`] — the scoped type and variable registry (an arena of
//!   lexical scopes with parent links);
//! * [`backend`] — the instruction model that lowering emits into: a module
//!   of functions, each a list of basic blocks holding instructions;
//! * [`codegen`] — the lowering engine itself: type inference, control-flow
//!   lowering and struct field access, each pinned down by a functional
//!   specification;
//! * [`error`] — the compile-time error taxonomy;
//! * [`laws`] — the global laws (scope shadowing, nominal equality, operand
//!   closure, conditional unification, deterministic lowering), proved over
//!   the same specifications;
//! * [`enums`] — operator tag sets shared with front ends.

pub mod ast;
pub mod backend;
pub mod codegen;
pub mod context;
pub mod enums;
pub mod error;
pub mod laws;
