//! Iterated reduction: simplify a tree as far as the current bindings allow,
//! preserving whatever cannot be resolved, until a pass makes no change.

use vstd::prelude::*;

use crate::ast::{Node, NodeV, Val, ValV};
use crate::context::Context;
use crate::eval::{builtin_of, eval, spec_builtin, spec_eval};

verus! {

/// The fully evaluated binding of `x`, if `x` is bound and its binding
/// resolves completely.
pub open spec fn spec_resolve(x: Seq<char>, vars: Map<Seq<char>, NodeV>, fuel: nat) -> Option<
    ValV,
> {
    if vars.contains_key(x) {
        spec_eval(vars[x], vars, fuel)
    } else {
        None
    }
}

fn resolve(x: &String, ctx: &Context) -> (r: Option<Val>)
    ensures
        match r {
            Some(v) => spec_resolve(x@, ctx@.vars, ctx@.fuel) == Some(v@),
            None => spec_resolve(x@, ctx@.vars, ctx@.fuel) is None,
        },
{
    match ctx.lookup(x) {
        Some(b) => eval(b, ctx),
        None => None,
    }
}

/// One reduction pass: the simplified tree, and whether anything changed.
///
/// A number is irreducible.  A function application first reduces its
/// argument; once the argument is a number, a built-in function folds into a
/// deferred application, while an unknown name keeps its wrapper around the
/// reduced argument.  A variable collapses only if its binding evaluates
/// completely; otherwise it is left alone, which is what lets reduction stop
/// at a forward reference.  An assignment reduces its right-hand side in
/// place.  A binary operation collapses when both operands are numbers, or
/// when one is a number and the other a completely resolvable variable; if a
/// variable operand does not resolve, the node is returned as it stands for
/// this pass; any other shape reduces both sides independently.
pub open spec fn spec_step(n: NodeV, vars: Map<Seq<char>, NodeV>, fuel: nat) -> (NodeV, bool)
    decreases n,
{
    match n {
        NodeV::Number(_) => (n, false),
        NodeV::Function { name, arg } => {
            let s = spec_step(*arg, vars, fuel);
            match s.0 {
                NodeV::Number(v) => match spec_builtin(name) {
                    Some(f) => (NodeV::Number(ValV::App(f, Box::new(v))), true),
                    None => (NodeV::Function { name, arg: Box::new(s.0) }, s.1),
                },
                _ => (NodeV::Function { name, arg: Box::new(s.0) }, s.1),
            }
        },
        NodeV::Variable(x) => match spec_resolve(x, vars, fuel) {
            Some(v) => (NodeV::Number(v), true),
            None => (n, false),
        },
        NodeV::Assign { name, rhs } => {
            let s = spec_step(*rhs, vars, fuel);
            (NodeV::Assign { name, rhs: Box::new(s.0) }, s.1)
        },
        NodeV::Op { op, lhs, rhs } => match (*lhs, *rhs) {
            (NodeV::Number(a), NodeV::Number(b)) => (
                NodeV::Number(ValV::Bin(op, Box::new(a), Box::new(b))),
                true,
            ),
            (NodeV::Variable(x), NodeV::Number(b)) => match spec_resolve(x, vars, fuel) {
                Some(a) => (NodeV::Number(ValV::Bin(op, Box::new(a), Box::new(b))), true),
                None => (n, false),
            },
            (NodeV::Number(a), NodeV::Variable(y)) => match spec_resolve(y, vars, fuel) {
                Some(b) => (NodeV::Number(ValV::Bin(op, Box::new(a), Box::new(b))), true),
                None => (n, false),
            },
            (NodeV::Variable(x), NodeV::Variable(y)) => match (
                spec_resolve(x, vars, fuel),
                spec_resolve(y, vars, fuel),
            ) {
                (Some(a), Some(b)) => (NodeV::Number(ValV::Bin(op, Box::new(a), Box::new(b))), true),
                _ => (n, false),
            },
            _ => {
                let l = spec_step(*lhs, vars, fuel);
                let r = spec_step(*rhs, vars, fuel);
                (NodeV::Op { op, lhs: Box::new(l.0), rhs: Box::new(r.0) }, l.1 || r.1)
            },
        },
    }
}

/// The number of nodes that are not yet numbers: the measure that every
/// changing pass strictly decreases.
pub open spec fn nonnum(n: NodeV) -> nat
    decreases n,
{
    match n {
        NodeV::Number(_) => 0,
        NodeV::Variable(_) => 1,
        NodeV::Function { arg, .. } => 1 + nonnum(*arg),
        NodeV::Op { lhs, rhs, .. } => 1 + nonnum(*lhs) + nonnum(*rhs),
        NodeV::Assign { rhs, .. } => 1 + nonnum(*rhs),
    }
}

/// A pass that reports no change returns the tree exactly as it was.
pub proof fn lemma_step_unchanged(n: NodeV, vars: Map<Seq<char>, NodeV>, fuel: nat)
    ensures
        !spec_step(n, vars, fuel).1 ==> spec_step(n, vars, fuel).0 == n,
    decreases n,
{
    match n {
        NodeV::Function { name, arg } => {
            lemma_step_unchanged(*arg, vars, fuel);
        },
        NodeV::Assign { name, rhs } => {
            lemma_step_unchanged(*rhs, vars, fuel);
        },
        NodeV::Op { op, lhs, rhs } => {
            lemma_step_unchanged(*lhs, vars, fuel);
            lemma_step_unchanged(*rhs, vars, fuel);
        },
        _ => {},
    }
}

/// A pass never grows the measure, and a changing pass strictly shrinks it:
/// iterated reduction terminates after at most [`nonnum`]`(n)` changing
/// passes.
pub proof fn lemma_step_progress(n: NodeV, vars: Map<Seq<char>, NodeV>, fuel: nat)
    ensures
        nonnum(spec_step(n, vars, fuel).0) <= nonnum(n),
        spec_step(n, vars, fuel).1 ==> nonnum(spec_step(n, vars, fuel).0) < nonnum(n),
    decreases n,
{
    match n {
        NodeV::Function { name, arg } => {
            lemma_step_progress(*arg, vars, fuel);
        },
        NodeV::Assign { name, rhs } => {
            lemma_step_progress(*rhs, vars, fuel);
        },
        NodeV::Op { op, lhs, rhs } => {
            lemma_step_progress(*lhs, vars, fuel);
            lemma_step_progress(*rhs, vars, fuel);
        },
        _ => {},
    }
}

/// Reduction to a fixed point: passes are applied until one reports no
/// change.
pub open spec fn spec_reduce(n: NodeV, vars: Map<Seq<char>, NodeV>, fuel: nat) -> NodeV
    decreases nonnum(n),
    via spec_reduce_decreases
{
    let s = spec_step(n, vars, fuel);
    if s.1 {
        spec_reduce(s.0, vars, fuel)
    } else {
        n
    }
}

#[via_fn]
proof fn spec_reduce_decreases(n: NodeV, vars: Map<Seq<char>, NodeV>, fuel: nat) {
    lemma_step_progress(n, vars, fuel);
}

/// One reduction pass over `n` under `ctx`.
pub fn reduce_step(n: &Node, ctx: &Context) -> (r: (Node, bool))
    ensures
        (r.0@, r.1) == spec_step(n@, ctx@.vars, ctx@.fuel),
    decreases n,
{
    proof {
        reveal_with_fuel(crate::ast::node_view, 3);
    }
    match n {
        Node::Number(_) => (n.duplicate(), false),
        Node::Function { name, arg } => {
            let s = reduce_step(arg, ctx);
            let changed = s.1;
            match s.0 {
                Node::Number(v) => match builtin_of(name) {
                    Some(f) => (Node::Number(Val::App(f, Box::new(v))), true),
                    None => (
                        Node::Function { name: name.clone(), arg: Box::new(Node::Number(v)) },
                        changed,
                    ),
                },
                other => (Node::Function { name: name.clone(), arg: Box::new(other) }, changed),
            }
        },
        Node::Variable(x) => match resolve(x, ctx) {
            Some(v) => (Node::Number(v), true),
            None => (n.duplicate(), false),
        },
        Node::Assign { name, rhs } => {
            let s = reduce_step(rhs, ctx);
            (Node::Assign { name: name.clone(), rhs: Box::new(s.0) }, s.1)
        },
        Node::Op { op, lhs, rhs } => match (&**lhs, &**rhs) {
            (Node::Number(a), Node::Number(b)) => (
                Node::Number(Val::Bin(*op, Box::new(a.duplicate()), Box::new(b.duplicate()))),
                true,
            ),
            (Node::Variable(x), Node::Number(b)) => match resolve(x, ctx) {
                Some(a) => (
                    Node::Number(Val::Bin(*op, Box::new(a), Box::new(b.duplicate()))),
                    true,
                ),
                None => (n.duplicate(), false),
            },
            (Node::Number(a), Node::Variable(y)) => match resolve(y, ctx) {
                Some(b) => (
                    Node::Number(Val::Bin(*op, Box::new(a.duplicate()), Box::new(b))),
                    true,
                ),
                None => (n.duplicate(), false),
            },
            (Node::Variable(x), Node::Variable(y)) => match (resolve(x, ctx), resolve(y, ctx)) {
                (Some(a), Some(b)) => (
                    Node::Number(Val::Bin(*op, Box::new(a), Box::new(b))),
                    true,
                ),
                _ => (n.duplicate(), false),
            },
            _ => {
                let l = reduce_step(lhs, ctx);
                let r = reduce_step(rhs, ctx);
                (Node::Op { op: *op, lhs: Box::new(l.0), rhs: Box::new(r.0) }, l.1 || r.1)
            },
        },
    }
}

/// Reduces `n` under `ctx` until a pass reports no change.
pub fn reduce(n: &Node, ctx: &Context) -> (r: Node)
    ensures
        r@ == spec_reduce(n@, ctx@.vars, ctx@.fuel),
{
    let s = reduce_step(n, ctx);
    let mut cur = s.0;
    let mut changed = s.1;
    proof {
        lemma_step_unchanged(n@, ctx@.vars, ctx@.fuel);
    }
    while changed
        invariant
            spec_reduce(n@, ctx@.vars, ctx@.fuel) == if changed {
                spec_reduce(cur@, ctx@.vars, ctx@.fuel)
            } else {
                cur@
            },
        decreases nonnum(cur@) + if changed { 1int } else { 0int },
    {
        let s2 = reduce_step(&cur, ctx);
        proof {
            lemma_step_progress(cur@, ctx@.vars, ctx@.fuel);
            lemma_step_unchanged(cur@, ctx@.vars, ctx@.fuel);
        }
        cur = s2.0;
        changed = s2.1;
    }
    cur
}

/// Reduction reaches a fixed point: one further pass over the result changes
/// nothing and returns the result itself.
pub proof fn lemma_reduce_fixed_point(n: NodeV, vars: Map<Seq<char>, NodeV>, fuel: nat)
    ensures
        spec_step(spec_reduce(n, vars, fuel), vars, fuel) == (spec_reduce(n, vars, fuel), false),
    decreases nonnum(n),
{
    let s = spec_step(n, vars, fuel);
    if s.1 {
        lemma_step_progress(n, vars, fuel);
        lemma_reduce_fixed_point(s.0, vars, fuel);
    } else {
        lemma_step_unchanged(n, vars, fuel);
        assert(s == (n, false));
    }
}

/// Reduction is idempotent: reducing an already reduced tree returns it
/// unchanged.
pub proof fn lemma_reduce_idempotent(n: NodeV, vars: Map<Seq<char>, NodeV>, fuel: nat)
    ensures
        spec_reduce(spec_reduce(n, vars, fuel), vars, fuel) == spec_reduce(n, vars, fuel),
{
    lemma_reduce_fixed_point(n, vars, fuel);
}

/// A variable with no binding reduces to itself; a forward reference is kept,
/// not reported as an error.
pub proof fn lemma_unbound_variable_fixed(x: Seq<char>, vars: Map<Seq<char>, NodeV>, fuel: nat)
    requires
        !vars.contains_key(x),
    ensures
        spec_reduce(NodeV::Variable(x), vars, fuel) == NodeV::Variable(x),
{
}

/// A variable bound to a number reduces to that number.
pub proof fn lemma_bound_number_reduces(x: Seq<char>, v: ValV, vars: Map<Seq<char>, NodeV>, fuel: nat)
    requires
        vars.contains_key(x),
        vars[x] == NodeV::Number(v),
    ensures
        spec_reduce(NodeV::Variable(x), vars, fuel) == NodeV::Number(v),
{
    assert(spec_step(NodeV::Variable(x), vars, fuel) == (NodeV::Number(v), true));
    assert(spec_step(NodeV::Number(v), vars, fuel) == (NodeV::Number(v), false));
    assert(spec_reduce(NodeV::Number(v), vars, fuel) == NodeV::Number(v));
}

/// A function whose name is not a built-in, applied to a numeric argument, is
/// already a fixed point: the wrapper is preserved around the argument.
pub proof fn lemma_unknown_function_fixed(
    name: Seq<char>,
    v: ValV,
    vars: Map<Seq<char>, NodeV>,
    fuel: nat,
)
    requires
        (spec_builtin(name) is None),
    ensures
        (spec_reduce(NodeV::Function { name, arg: Box::new(NodeV::Number(v)) }, vars, fuel)
            == NodeV::Function { name, arg: Box::new(NodeV::Number(v)) }),
{
    let n = NodeV::Function { name, arg: Box::new(NodeV::Number(v)) };
    assert(spec_step(NodeV::Number(v), vars, fuel) == (NodeV::Number(v), false));
    assert(spec_step(n, vars, fuel) == (n, false));
}

} // verus!
