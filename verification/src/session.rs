//! The session-level rule applied after a line has been parsed: a top-level
//! assignment mutates the context before the line's tree is reduced and
//! printed.

use vstd::prelude::*;

use crate::ast::{Node, NodeV, Val};
use crate::context::Context;
use crate::eval::{eval, spec_eval};

verus! {

/// What applying a parsed line to the context came to.
pub enum ContextUpdate {
    /// The line was not an assignment; the context is untouched.
    NotAssignment,
    /// The right-hand side was bound, verbatim, to its name.
    Bound,
    /// The line assigned to the reserved name `precision` and its right-hand
    /// side evaluated completely; the caller realises the value as a
    /// non-negative integer and stores it with
    /// [`Context::set_precision`].  The context is untouched until then.
    Precision(Val),
    /// The line assigned to `precision` but the right-hand side could not be
    /// evaluated; the context is untouched and a diagnostic is owed.
    PrecisionUnresolved,
}

/// Applies a parsed line to the context.
///
/// An assignment to any ordinary name stores its right-hand side unevaluated
/// and unreduced, so the binding may refer forward to names defined later.
/// An assignment to the reserved name `precision` does not create a binding:
/// its right-hand side is evaluated — not reduced — and handed back, since
/// only the caller can turn the value into a digit count.
pub fn update_context(node: &Node, ctx: &mut Context) -> (r: ContextUpdate)
    ensures
        match node@ {
            NodeV::Assign { name, rhs } => if name == "precision"@ {
                final(ctx)@ == old(ctx)@ && match spec_eval(*rhs, old(ctx)@.vars, old(ctx)@.fuel) {
                    Some(v) => (r matches ContextUpdate::Precision(p) && p@ == v),
                    None => (r is PrecisionUnresolved),
                }
            } else {
                final(ctx)@.vars == old(ctx)@.vars.insert(name, *rhs) && final(ctx)@.precision
                    == old(ctx)@.precision && final(ctx)@.fuel == old(ctx)@.fuel + 1 && (
                r is Bound)
            },
            _ => final(ctx)@ == old(ctx)@ && (r is NotAssignment),
        },
{
    match node {
        Node::Assign { name, rhs } => {
            if *name == "precision".to_owned() {
                match eval(rhs, ctx) {
                    Some(v) => ContextUpdate::Precision(v),
                    None => ContextUpdate::PrecisionUnresolved,
                }
            } else {
                ctx.bind(name.clone(), rhs.duplicate());
                ContextUpdate::Bound
            }
        },
        _ => ContextUpdate::NotAssignment,
    }
}

} // verus!
