//! Full evaluation: compute a numeric value for a tree, or report that it has
//! none.  Unlike reduction, evaluation either succeeds entirely or fails
//! entirely; absence of a value is the signal, never an error.

use vstd::prelude::*;

use crate::ast::{Builtin, Node, NodeV, Val, ValV};
use crate::context::Context;

verus! {

/// The built-in function named `name`, if there is one.
pub open spec fn spec_builtin(name: Seq<char>) -> Option<Builtin> {
    if name == "sin"@ {
        Some(Builtin::Sin)
    } else if name == "cos"@ {
        Some(Builtin::Cos)
    } else if name == "tan"@ {
        Some(Builtin::Tan)
    } else {
        None
    }
}

/// Executable form of [`spec_builtin`].
pub fn builtin_of(name: &String) -> (r: Option<Builtin>)
    ensures
        r == spec_builtin(name@),
{
    if *name == "sin".to_owned() {
        Some(Builtin::Sin)
    } else if *name == "cos".to_owned() {
        Some(Builtin::Cos)
    } else if *name == "tan".to_owned() {
        Some(Builtin::Tan)
    } else {
        None
    }
}

/// The value of a tree under the given bindings, or `None` when the tree
/// cannot be fully resolved.
///
/// A variable is resolved by evaluating its binding in turn, spending one
/// unit of `fuel` per lookup.  Since the budget passed by [`eval`] never
/// falls below the number of distinct bound names, only a cyclic chain of
/// bindings can exhaust it, and a cyclic chain has no value anyway.
pub open spec fn spec_eval(n: NodeV, vars: Map<Seq<char>, NodeV>, fuel: nat) -> Option<ValV>
    decreases fuel, n,
{
    match n {
        NodeV::Number(v) => Some(v),
        NodeV::Variable(x) => if fuel > 0 && vars.contains_key(x) {
            spec_eval(vars[x], vars, (fuel - 1) as nat)
        } else {
            None
        },
        NodeV::Function { name, arg } => match spec_eval(*arg, vars, fuel) {
            Some(v) => match spec_builtin(name) {
                Some(f) => Some(ValV::App(f, Box::new(v))),
                None => None,
            },
            None => None,
        },
        NodeV::Assign { .. } => None,
        NodeV::Op { op, lhs, rhs } => match (
            spec_eval(*lhs, vars, fuel),
            spec_eval(*rhs, vars, fuel),
        ) {
            (Some(a), Some(b)) => Some(ValV::Bin(op, Box::new(a), Box::new(b))),
            _ => None,
        },
    }
}

fn eval_rec(n: &Node, ctx: &Context, fuel: usize) -> (r: Option<Val>)
    ensures
        match r {
            Some(v) => spec_eval(n@, ctx@.vars, fuel as nat) == Some(v@),
            None => spec_eval(n@, ctx@.vars, fuel as nat) is None,
        },
    decreases fuel, n,
{
    match n {
        Node::Number(v) => Some(v.duplicate()),
        Node::Variable(x) => {
            if fuel > 0 {
                match ctx.lookup(x) {
                    Some(b) => eval_rec(b, ctx, fuel - 1),
                    None => None,
                }
            } else {
                None
            }
        },
        Node::Function { name, arg } => {
            match eval_rec(arg, ctx, fuel) {
                Some(v) => match builtin_of(name) {
                    Some(f) => Some(Val::App(f, Box::new(v))),
                    None => None,
                },
                None => None,
            }
        },
        Node::Assign { .. } => None,
        Node::Op { op, lhs, rhs } => {
            match eval_rec(lhs, ctx, fuel) {
                Some(a) => match eval_rec(rhs, ctx, fuel) {
                    Some(b) => Some(Val::Bin(*op, Box::new(a), Box::new(b))),
                    None => None,
                },
                None => None,
            }
        },
    }
}

/// An assignment never has a numeric value of its own, whatever is bound.
pub proof fn lemma_assign_has_no_value(
    name: Seq<char>,
    rhs: NodeV,
    vars: Map<Seq<char>, NodeV>,
    fuel: nat,
)
    ensures
        (spec_eval(NodeV::Assign { name, rhs: Box::new(rhs) }, vars, fuel) is None),
{
}

/// The numeric value of `n` under `ctx`, or `None` when `n` cannot be fully
/// resolved — an unbound or cyclically bound variable, an unknown function
/// name, or an assignment, which has no value of its own.
pub fn eval(n: &Node, ctx: &Context) -> (r: Option<Val>)
    ensures
        match r {
            Some(v) => spec_eval(n@, ctx@.vars, ctx@.fuel) == Some(v@),
            None => spec_eval(n@, ctx@.vars, ctx@.fuel) is None,
        },
{
    eval_rec(n, ctx, ctx.budget())
}

} // verus!
