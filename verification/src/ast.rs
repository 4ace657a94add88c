//! The expression representation: operators, numeric values and syntax trees,
//! together with their mathematical views.

use vstd::prelude::*;

verus! {

/// The five binary operators of the grammar.
#[derive(Clone, Copy, PartialEq, Eq, Structural, Debug)]
pub enum Op {
    Add,
    Subtract,
    Multiply,
    Divide,
    Power,
}

/// Associativity of a binary operator.
#[derive(Clone, Copy, PartialEq, Eq, Structural, Debug)]
pub enum Assoc {
    Left,
    Right,
}

/// Precedence level of an operator: addition and subtraction bind loosest,
/// exponentiation binds tightest.
pub open spec fn spec_precedence(op: Op) -> int {
    match op {
        Op::Add | Op::Subtract => 1,
        Op::Multiply | Op::Divide => 2,
        Op::Power => 3,
    }
}

/// Associativity of an operator: every operator is left-associative except
/// exponentiation, which is right-associative.
pub open spec fn spec_assoc(op: Op) -> Assoc {
    match op {
        Op::Power => Assoc::Right,
        _ => Assoc::Left,
    }
}

/// Executable form of [`spec_precedence`].
pub fn op_precedence(op: &Op) -> (p: i32)
    ensures
        p == spec_precedence(*op),
{
    match op {
        Op::Add | Op::Subtract => 1,
        Op::Multiply | Op::Divide => 2,
        Op::Power => 3,
    }
}

/// Executable form of [`spec_assoc`].
pub fn op_assoc(op: &Op) -> (a: Assoc)
    ensures
        a == spec_assoc(*op),
{
    match op {
        Op::Power => Assoc::Right,
        _ => Assoc::Left,
    }
}

/// The built-in unary functions.
#[derive(Clone, Copy, PartialEq, Eq, Structural, Debug)]
pub enum Builtin {
    Sin,
    Cos,
    Tan,
}

/// A fully determined numeric value, kept symbolic.
///
/// The engine never needs to look at the machine value of a number: which
/// sub-expressions collapse depends only on the shape of the tree, the
/// bindings in scope and the spelling of function names.  A `Val` therefore
/// records how the number is obtained — a decimal literal, a named constant,
/// an operator applied to two values, or a built-in function applied to one —
/// and a caller realises it as a machine number only at the display boundary.
pub enum Val {
    /// A decimal literal, as written: digits with an optional fractional part.
    Lit(String),
    /// The circle constant.
    Pi,
    /// Euler's number.
    E,
    /// A binary operator applied to two values.
    Bin(Op, Box<Val>, Box<Val>),
    /// A built-in function applied to one value.
    App(Builtin, Box<Val>),
}

/// Mathematical view of a [`Val`]: literal text becomes a sequence of
/// characters.
pub enum ValV {
    Lit(Seq<char>),
    Pi,
    E,
    Bin(Op, Box<ValV>, Box<ValV>),
    App(Builtin, Box<ValV>),
}

/// The view of a [`Val`].
pub open spec fn val_view(v: Val) -> ValV
    decreases v,
{
    match v {
        Val::Lit(s) => ValV::Lit(s@),
        Val::Pi => ValV::Pi,
        Val::E => ValV::E,
        Val::Bin(op, a, b) => ValV::Bin(op, Box::new(val_view(*a)), Box::new(val_view(*b))),
        Val::App(f, a) => ValV::App(f, Box::new(val_view(*a))),
    }
}

impl View for Val {
    type V = ValV;

    open spec fn view(&self) -> ValV {
        val_view(*self)
    }
}

/// A node of the abstract syntax tree.
pub enum Node {
    /// A numeric value.
    Number(Val),
    /// A reference to a name, resolved against the context when the tree is
    /// evaluated or reduced; it never holds a value of its own.
    Variable(String),
    /// A named unary function applied to one sub-expression.
    Function { name: String, arg: Box<Node> },
    /// A binary operation.
    Op { op: Op, lhs: Box<Node>, rhs: Box<Node> },
    /// A binding of `rhs`, unevaluated, to `name`; it has no value itself.
    Assign { name: String, rhs: Box<Node> },
}

/// Mathematical view of a [`Node`].
pub enum NodeV {
    Number(ValV),
    Variable(Seq<char>),
    Function { name: Seq<char>, arg: Box<NodeV> },
    Op { op: Op, lhs: Box<NodeV>, rhs: Box<NodeV> },
    Assign { name: Seq<char>, rhs: Box<NodeV> },
}

/// The view of a [`Node`].
pub open spec fn node_view(n: Node) -> NodeV
    decreases n,
{
    match n {
        Node::Number(v) => NodeV::Number(val_view(v)),
        Node::Variable(x) => NodeV::Variable(x@),
        Node::Function { name, arg } => NodeV::Function {
            name: name@,
            arg: Box::new(node_view(*arg)),
        },
        Node::Op { op, lhs, rhs } => NodeV::Op {
            op,
            lhs: Box::new(node_view(*lhs)),
            rhs: Box::new(node_view(*rhs)),
        },
        Node::Assign { name, rhs } => NodeV::Assign { name: name@, rhs: Box::new(node_view(*rhs)) },
    }
}

impl View for Node {
    type V = NodeV;

    open spec fn view(&self) -> NodeV {
        node_view(*self)
    }
}

impl Val {
    /// A structurally equal copy.
    pub fn duplicate(&self) -> (r: Val)
        ensures
            r@ == self@,
        decreases self,
    {
        match self {
            Val::Lit(s) => Val::Lit(s.clone()),
            Val::Pi => Val::Pi,
            Val::E => Val::E,
            Val::Bin(op, a, b) => Val::Bin(*op, Box::new(a.duplicate()), Box::new(b.duplicate())),
            Val::App(f, a) => Val::App(*f, Box::new(a.duplicate())),
        }
    }
}

impl Clone for Val {
    fn clone(&self) -> (r: Self)
        ensures
            r@ == self@,
    {
        self.duplicate()
    }
}

impl Node {
    /// A structurally equal copy.
    pub fn duplicate(&self) -> (r: Node)
        ensures
            r@ == self@,
        decreases self,
    {
        match self {
            Node::Number(v) => Node::Number(v.duplicate()),
            Node::Variable(x) => Node::Variable(x.clone()),
            Node::Function { name, arg } => Node::Function {
                name: name.clone(),
                arg: Box::new(arg.duplicate()),
            },
            Node::Op { op, lhs, rhs } => Node::Op {
                op: *op,
                lhs: Box::new(lhs.duplicate()),
                rhs: Box::new(rhs.duplicate()),
            },
            Node::Assign { name, rhs } => Node::Assign {
                name: name.clone(),
                rhs: Box::new(rhs.duplicate()),
            },
        }
    }
}

impl Clone for Node {
    fn clone(&self) -> (r: Self)
        ensures
            r@ == self@,
    {
        self.duplicate()
    }
}

} // verus!
