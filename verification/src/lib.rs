//! An interactive arithmetic expression engine.
//!
//! A line of text is parsed into an abstract syntax tree ([`ast::Node`]),
//! variables are bound and rebound in a session [`context::Context`], and an
//! expression is simplified by iterated reduction passes until it reaches a
//! fixed point ([`reduce::reduce`]).  Expressions that cannot be fully
//! resolved (forward references, unknown functions) are preserved rather than
//! rejected.
//!
//! Numeric work is kept symbolic: a number is a [`ast::Val`], a closed
//! arithmetic plan over decimal literals and the named constants, and the
//! caller realises a plan as a machine number only when a result is displayed
//! or a display precision is assigned.

pub mod ast;
pub mod context;
pub mod eval;
pub mod parser;
pub mod reduce;
pub mod render;
pub mod session;
