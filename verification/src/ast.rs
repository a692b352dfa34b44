//! The abstract syntax tree that the evaluator walks.
//!
//! An external parser is expected to build these nodes; the evaluator
//! assumes the tree is fully formed. Operators and keywords are closed
//! enumerations rather than strings, so dispatch is structural.

use vstd::prelude::*;
use std::rc::Rc;

verus! {

broadcast use vstd::group_vstd_default;

/// Arithmetic operators.
#[derive(Clone, Copy, PartialEq, Eq, Structural, Debug)]
pub enum ArithOp {
    Add,
    Sub,
    Mul,
    Div,
}

/// Comparison operators.
#[derive(Clone, Copy, PartialEq, Eq, Structural, Debug)]
pub enum CmpOp {
    Eq,
    Ne,
    Ge,
    Le,
    Lt,
    Gt,
}

/// A syntax-tree node.
///
/// `Empty` stands for an absent piece of syntax (a missing `else`
/// branch, a `for` loop without an initializer); evaluating it yields
/// the null value.
pub enum Node {
    /// A sequence of statements evaluated in order.
    Block(Vec<Node>),
    /// A numeric literal.
    NumLit(i64),
    /// A string literal.
    StrLit(String),
    /// A boolean literal.
    BoolLit(bool),
    /// A variable read; an absent variable reads as null.
    Name(String),
    /// `name = expr`.
    Assign(String, Box<Node>),
    /// `name[i]...[k] = expr`: an index-chain assignment.
    IndexAssign(String, Vec<Node>, Box<Node>),
    /// `name.prop = expr`.
    PropAssign(String, String, Box<Node>),
    /// `l op r` for an arithmetic operator.
    Arith(ArithOp, Box<Node>, Box<Node>),
    /// `l op r` for a comparison operator.
    Cmp(CmpOp, Box<Node>, Box<Node>),
    /// `expr.prop`.
    PropGet(Box<Node>, String),
    /// `func name(params) { body }`.
    FuncDef(String, Vec<String>, Rc<Node>),
    /// `class Name { methods }`; every child must be a `FuncDef`.
    ClassDef(String, Vec<Node>),
    /// `name(args)`: a built-in or heap function call.
    Call(String, Vec<Node>),
    /// `return expr`.
    Return(Box<Node>),
    /// `recv.method(args)`.
    MethodCall(Box<Node>, String, Vec<Node>),
    /// `new Name(args)`.
    New(String, Vec<Node>),
    /// `if cond { body } branch` where branch is another `If`, a
    /// block, or `Empty`.
    If(Box<Node>, Box<Node>, Box<Node>),
    /// `while cond { body }`.
    While(Box<Node>, Box<Node>),
    /// `for (init; cond; step) { body }`; init may be `Empty`.
    For(Box<Node>, Box<Node>, Box<Node>, Box<Node>),
    /// `[e1, e2, ...]`.
    ArrayLit(Vec<Node>),
    /// `expr[i]`.
    Index(Box<Node>, Box<Node>),
    /// Absent syntax; evaluates to null.
    Empty,
}

/// The mathematical form of a syntax-tree node, used by the
/// specification-level interpreter.
pub enum NodeV {
    Block(Seq<NodeV>),
    NumLit(i64),
    StrLit(Seq<char>),
    BoolLit(bool),
    Name(Seq<char>),
    Assign(Seq<char>, Box<NodeV>),
    IndexAssign(Seq<char>, Seq<NodeV>, Box<NodeV>),
    PropAssign(Seq<char>, Seq<char>, Box<NodeV>),
    Arith(ArithOp, Box<NodeV>, Box<NodeV>),
    Cmp(CmpOp, Box<NodeV>, Box<NodeV>),
    PropGet(Box<NodeV>, Seq<char>),
    FuncDef(Seq<char>, Seq<Seq<char>>, Box<NodeV>),
    ClassDef(Seq<char>, Seq<NodeV>),
    Call(Seq<char>, Seq<NodeV>),
    Return(Box<NodeV>),
    MethodCall(Box<NodeV>, Seq<char>, Seq<NodeV>),
    New(Seq<char>, Seq<NodeV>),
    If(Box<NodeV>, Box<NodeV>, Box<NodeV>),
    While(Box<NodeV>, Box<NodeV>),
    For(Box<NodeV>, Box<NodeV>, Box<NodeV>, Box<NodeV>),
    ArrayLit(Seq<NodeV>),
    Index(Box<NodeV>, Box<NodeV>),
    Empty,
}

/// The views of a vector of nodes, elementwise.
pub open spec fn nodes_view(s: Seq<Node>) -> Seq<NodeV>
    decreases s,
{
    if s.len() == 0 {
        Seq::empty()
    } else {
        seq![s[0]@] + nodes_view(s.subrange(1, s.len() as int))
    }
}

/// The length of an elementwise node view.
pub broadcast proof fn nodes_view_len(s: Seq<Node>)
    ensures
        (#[trigger] nodes_view(s)).len() == s.len(),
    decreases s.len(),
{
    if s.len() > 0 {
        nodes_view_len(s.subrange(1, s.len() as int));
        assert(nodes_view(s.subrange(1, s.len() as int)).len() == s.len() - 1);
        assert(nodes_view(s) == seq![s[0]@] + nodes_view(s.subrange(1, s.len() as int)));
        assert(nodes_view(s).len() == s.len());
    }
}

/// Each entry of an elementwise node view.
pub broadcast proof fn nodes_view_index(s: Seq<Node>, i: int)
    requires
        0 <= i < s.len(),
    ensures
        #[trigger] nodes_view(s)[i] == s[i]@,
    decreases i,
{
    nodes_view_len(s);
    assert(nodes_view(s) == seq![s[0]@] + nodes_view(s.subrange(1, s.len() as int)));
    if i > 0 {
        nodes_view_index(s.subrange(1, s.len() as int), i - 1);
        assert(nodes_view(s)[i] == nodes_view(s.subrange(1, s.len() as int))[i - 1]);
    }
}

/// The views of a vector of names, elementwise.
pub open spec fn params_view(s: Seq<String>) -> Seq<Seq<char>> {
    Seq::new(s.len(), |i: int| if 0 <= i < s.len() { s[i]@ } else { Seq::empty() })
}

/// The lemmas that characterize `nodes_view`.
pub broadcast group group_node_views {
    nodes_view_len,
    nodes_view_index,
}

impl View for Node {
    type V = NodeV;

    open spec fn view(&self) -> NodeV
        decreases self,
    {
        match self {
            Node::Block(v) => NodeV::Block(
                nodes_view(v@),
            ),
            Node::NumLit(n) => NodeV::NumLit(*n),
            Node::StrLit(s) => NodeV::StrLit(s@),
            Node::BoolLit(b) => NodeV::BoolLit(*b),
            Node::Name(n) => NodeV::Name(n@),
            Node::Assign(n, e) => NodeV::Assign(n@, Box::new((**e)@)),
            Node::IndexAssign(n, idxs, e) => NodeV::IndexAssign(
                n@,
                nodes_view(idxs@),
                Box::new((**e)@),
            ),
            Node::PropAssign(n, p, e) => NodeV::PropAssign(n@, p@, Box::new((**e)@)),
            Node::Arith(op, l, r) => NodeV::Arith(*op, Box::new((**l)@), Box::new((**r)@)),
            Node::Cmp(op, l, r) => NodeV::Cmp(*op, Box::new((**l)@), Box::new((**r)@)),
            Node::PropGet(e, p) => NodeV::PropGet(Box::new((**e)@), p@),
            Node::FuncDef(n, ps, b) => NodeV::FuncDef(
                n@,
                params_view(ps@),
                Box::new((**b)@),
            ),
            Node::ClassDef(n, ds) => NodeV::ClassDef(
                n@,
                nodes_view(ds@),
            ),
            Node::Call(n, args) => NodeV::Call(
                n@,
                nodes_view(args@),
            ),
            Node::Return(e) => NodeV::Return(Box::new((**e)@)),
            Node::MethodCall(r, m, args) => NodeV::MethodCall(
                Box::new((**r)@),
                m@,
                nodes_view(args@),
            ),
            Node::New(n, args) => NodeV::New(
                n@,
                nodes_view(args@),
            ),
            Node::If(c, b, e) => NodeV::If(
                Box::new((**c)@),
                Box::new((**b)@),
                Box::new((**e)@),
            ),
            Node::While(c, b) => NodeV::While(Box::new((**c)@), Box::new((**b)@)),
            Node::For(i, c, s, b) => NodeV::For(
                Box::new((**i)@),
                Box::new((**c)@),
                Box::new((**s)@),
                Box::new((**b)@),
            ),
            Node::ArrayLit(es) => NodeV::ArrayLit(nodes_view(es@)),
            Node::Index(e, i) => NodeV::Index(Box::new((**e)@), Box::new((**i)@)),
            Node::Empty => NodeV::Empty,
        }
    }
}

} // verus!
