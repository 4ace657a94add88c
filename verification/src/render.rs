//! The canonical pretty-printer: infix notation with the fewest parentheses,
//! a child expression being wrapped only when its operator binds more loosely
//! than its parent's.
//!
//! A tree is printed in two steps.  [`number_leaves`] lists the numeric
//! values of the tree in print order, so the caller can realise each one as
//! display text; [`with_leaf_texts`] substitutes those texts back as literal
//! leaves; [`render`] then produces the final line.

use vstd::prelude::*;

use crate::ast::{op_precedence, spec_precedence, Node, NodeV, Op, Val, ValV};

verus! {

/// The printed symbol of an operator.
pub open spec fn spec_op_symbol(op: Op) -> Seq<char> {
    match op {
        Op::Add => "+"@,
        Op::Subtract => "-"@,
        Op::Multiply => "*"@,
        Op::Divide => "/"@,
        Op::Power => "^"@,
    }
}

/// Executable form of [`spec_op_symbol`].
pub fn op_symbol(op: &Op) -> (s: String)
    ensures
        s@ == spec_op_symbol(*op),
{
    match op {
        Op::Add => "+".to_owned(),
        Op::Subtract => "-".to_owned(),
        Op::Multiply => "*".to_owned(),
        Op::Divide => "/".to_owned(),
        Op::Power => "^".to_owned(),
    }
}

/// The display text of a numeric value: the text of a literal.  A value that
/// is not a literal has no text of its own; the printing pipeline substitutes
/// literal leaves first.
pub open spec fn spec_lit_text(v: ValV) -> Seq<char> {
    match v {
        ValV::Lit(s) => s,
        _ => Seq::empty(),
    }
}

/// The rendering of a tree: infix, one space around operators and the
/// assignment sign, minimal parentheses.
pub open spec fn spec_render(n: NodeV) -> Seq<char>
    decreases n, 0int,
{
    match n {
        NodeV::Number(v) => spec_lit_text(v),
        NodeV::Variable(x) => x,
        NodeV::Function { name, arg } => name + "("@ + spec_render(*arg) + ")"@,
        NodeV::Op { op, lhs, rhs } => spec_branch(op, *lhs) + " "@ + spec_op_symbol(op) + " "@
            + spec_branch(op, *rhs),
        NodeV::Assign { name, rhs } => name + " = "@ + spec_render(*rhs),
    }
}

/// The rendering of an operand: parenthesized exactly when it is itself an
/// operation that binds more loosely than the surrounding operator.
pub open spec fn spec_branch(op: Op, child: NodeV) -> Seq<char>
    decreases child, 1int,
{
    match child {
        NodeV::Op { op: op2, .. } => if spec_precedence(op2) < spec_precedence(op) {
            "("@ + spec_render(child) + ")"@
        } else {
            spec_render(child)
        },
        _ => spec_render(child),
    }
}

/// Renders `n` as a line of text.
pub fn render(n: &Node) -> (s: String)
    ensures
        s@ == spec_render(n@),
    decreases n, 0int,
{
    match n {
        Node::Number(v) => match v {
            Val::Lit(s) => s.clone(),
            _ => String::new(),
        },
        Node::Variable(x) => x.clone(),
        Node::Function { name, arg } => name.clone().concat("(").concat(
            render(arg).as_str(),
        ).concat(")"),
        Node::Op { op, lhs, rhs } => render_branch(op, lhs).concat(" ").concat(
            op_symbol(op).as_str(),
        ).concat(" ").concat(render_branch(op, rhs).as_str()),
        Node::Assign { name, rhs } => name.clone().concat(" = ").concat(render(rhs).as_str()),
    }
}

fn render_branch(op: &Op, child: &Node) -> (s: String)
    ensures
        s@ == spec_branch(*op, child@),
    decreases child, 1int,
{
    match child {
        Node::Op { op: op2, .. } => {
            if op_precedence(op2) < op_precedence(op) {
                "(".to_owned().concat(render(child).as_str()).concat(")")
            } else {
                render(child)
            }
        },
        _ => render(child),
    }
}

/// The numeric values of a tree, in print order.
pub open spec fn spec_leaves(n: NodeV) -> Seq<ValV>
    decreases n,
{
    match n {
        NodeV::Number(v) => seq![v],
        NodeV::Variable(_) => Seq::empty(),
        NodeV::Function { arg, .. } => spec_leaves(*arg),
        NodeV::Op { lhs, rhs, .. } => spec_leaves(*lhs) + spec_leaves(*rhs),
        NodeV::Assign { rhs, .. } => spec_leaves(*rhs),
    }
}

/// Lists the numeric values of `n` in print order.
pub fn number_leaves(n: &Node) -> (r: Vec<Val>)
    ensures
        r@.len() == spec_leaves(n@).len(),
        forall|i: int| 0 <= i < r@.len() ==> r@[i]@ == spec_leaves(n@)[i],
    decreases n,
{
    match n {
        Node::Number(v) => {
            let mut r: Vec<Val> = Vec::new();
            r.push(v.duplicate());
            r
        },
        Node::Variable(_) => Vec::new(),
        Node::Function { arg, .. } => number_leaves(arg),
        Node::Op { lhs, rhs, .. } => {
            let mut l = number_leaves(lhs);
            let mut r2 = number_leaves(rhs);
            l.append(&mut r2);
            l
        },
        Node::Assign { rhs, .. } => number_leaves(rhs),
    }
}

/// `n` with its numeric leaves replaced, in print order, by the literal
/// texts starting at position `i`.
pub open spec fn spec_subst(n: NodeV, texts: Seq<Seq<char>>, i: int) -> NodeV
    decreases n,
{
    match n {
        NodeV::Number(_) => NodeV::Number(ValV::Lit(texts[i])),
        NodeV::Variable(_) => n,
        NodeV::Function { name, arg } => NodeV::Function {
            name,
            arg: Box::new(spec_subst(*arg, texts, i)),
        },
        NodeV::Op { op, lhs, rhs } => NodeV::Op {
            op,
            lhs: Box::new(spec_subst(*lhs, texts, i)),
            rhs: Box::new(spec_subst(*rhs, texts, i + spec_leaves(*lhs).len())),
        },
        NodeV::Assign { name, rhs } => NodeV::Assign {
            name,
            rhs: Box::new(spec_subst(*rhs, texts, i)),
        },
    }
}

fn subst_rec(n: &Node, texts: &Vec<String>, i: usize) -> (r: (Node, usize))
    requires
        i + spec_leaves(n@).len() <= texts@.len(),
    ensures
        r.0@ == spec_subst(n@, texts.deep_view(), i as int),
        r.1 == i + spec_leaves(n@).len(),
    decreases n,
{
    match n {
        Node::Number(_) => {
            // The machine length of the vector bounds the index arithmetic.
            let _len: usize = texts.len();
            proof {
                assert(spec_leaves(n@).len() == 1);
            }
            (Node::Number(Val::Lit(texts[i].clone())), i + 1)
        },
        Node::Variable(x) => (Node::Variable(x.clone()), i),
        Node::Function { name, arg } => {
            let s = subst_rec(arg, texts, i);
            (Node::Function { name: name.clone(), arg: Box::new(s.0) }, s.1)
        },
        Node::Op { op, lhs, rhs } => {
            let l = subst_rec(lhs, texts, i);
            let r2 = subst_rec(rhs, texts, l.1);
            (Node::Op { op: *op, lhs: Box::new(l.0), rhs: Box::new(r2.0) }, r2.1)
        },
        Node::Assign { name, rhs } => {
            let s = subst_rec(rhs, texts, i);
            (Node::Assign { name: name.clone(), rhs: Box::new(s.0) }, s.1)
        },
    }
}

/// `n` with its numeric leaves replaced, in print order, by the given
/// literal texts; the texts must cover the leaves.
pub fn with_leaf_texts(n: &Node, texts: &Vec<String>) -> (r: Node)
    requires
        spec_leaves(n@).len() <= texts@.len(),
    ensures
        r@ == spec_subst(n@, texts.deep_view(), 0),
{
    let s = subst_rec(n, texts, 0);
    s.0
}

} // verus!
