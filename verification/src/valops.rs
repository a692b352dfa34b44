//! Executable operations on values: deep copy, structural equality,
//! and the fixed total order.

use vstd::prelude::*;
use std::rc::Rc;
use crate::ast::Node;
use crate::ast::NodeV;
use crate::ast::nodes_view;
use crate::ast::params_view;
use crate::value::Cmp;
use crate::value::Value;
use crate::value::ValueV;
use crate::value::arr_cmp;
use crate::value::chars_cmp;
use crate::value::int_cmp;
use crate::value::kind_rank;
use crate::value::obj_view;
use crate::value::props_get;
use crate::value::props_set;
use crate::value::val_cmp;
use crate::value::vals_view;

verus! {

broadcast use vstd::group_vstd_default, crate::ast::group_node_views, crate::value::group_value_views;

/// Relies on std's `Rc::clone`: the returned handle shares the same
/// allocation, so it holds the very same node.
#[verifier::external_body]
fn rc_clone_node(b: &Rc<Node>) -> (r: Rc<Node>)
    ensures
        r == *b,
{
    Rc::clone(b)
}

/// Relies on std's equality for string slices: two slices are equal
/// exactly when their character sequences are.
#[verifier::external_body]
pub fn str_eq(a: &str, b: &str) -> (r: bool)
    ensures
        r == (a@ == b@),
{
    a == b
}

/// A copy of a vector of names with the same views.
#[verifier::loop_isolation(false)]
pub fn clone_params(ps: &Vec<String>) -> (r: Vec<String>)
    ensures
        params_view(r@) == params_view(ps@),
{
    let mut out: Vec<String> = Vec::new();
    let mut i: usize = 0;
    while i < ps.len()
        invariant
            i <= ps.len(),
            out@.len() == i,
            forall|j: int| 0 <= j < i ==> out@[j]@ == ps@[j]@,
        decreases ps.len() - i,
    {
        out.push(ps[i].clone());
        i = i + 1;
    }
    proof {
        assert(params_view(out@) =~= params_view(ps@));
    }
    out
}

/// A function value built from a definition's parts; the body is
/// shared, not copied.
pub fn func_value(n: &String, ps: &Vec<String>, b: &Rc<Node>) -> (r: Value)
    ensures
        r@ == ValueV::Function(n@, params_view(ps@), Box::new((**b)@)),
{
    Value::Function(n.clone(), clone_params(ps), rc_clone_node(b))
}

/// A deep copy of a value: the copy and the original have the same
/// mathematical value and share no mutable state.
#[verifier::loop_isolation(false)]
pub fn deep_clone(v: &Value) -> (r: Value)
    ensures
        r@ == v@,
    decreases v,
{
    match v {
        Value::Null => Value::Null,
        Value::Number(n) => Value::Number(*n),
        Value::Str(s) => Value::Str(s.clone()),
        Value::Bool(b) => Value::Bool(*b),
        Value::NameRef(n) => Value::NameRef(n.clone()),
        Value::Function(n, ps, b) => Value::Function(n.clone(), clone_params(ps), rc_clone_node(b)),
        Value::Array(es) => {
            let mut out: Vec<Value> = Vec::new();
            let mut i: usize = 0;
            while i < es.len()
                invariant
                    i <= es.len(),
                    out@.len() == i,
                    forall|j: int| 0 <= j < i ==> out@[j]@ == es@[j]@,
                decreases es.len() - i,
            {
                proof {
                    assert(decreases_to!(*v => *es));
                    assert(decreases_to!(*es => es[i as int]));
                }
                out.push(deep_clone(&es[i]));
                i = i + 1;
            }
            proof {
                assert(vals_view(out@) =~= vals_view(es@));
            }
            Value::Array(out)
        },
        Value::Object(ps) => {
            let mut out: Vec<(String, Value)> = Vec::new();
            let mut i: usize = 0;
            while i < ps.len()
                invariant
                    i <= ps.len(),
                    out@.len() == i,
                    forall|j: int| 0 <= j < i ==> out@[j].0@ == ps@[j].0@ && out@[j].1@
                        == ps@[j].1@,
                decreases ps.len() - i,
            {
                proof {
                    assert(decreases_to!(*v => *ps));
                    assert(decreases_to!(*ps => ps[i as int]));
                    assert(decreases_to!(ps[i as int] => ps[i as int].1));
                }
                let name = ps[i].0.clone();
                let val = deep_clone(&ps[i].1);
                out.push((name, val));
                i = i + 1;
            }
            proof {
                assert(obj_view(out@) =~= obj_view(ps@));
            }
            Value::Object(out)
        },
    }
}

/// Structural equality of two nodes.
pub fn node_eq(a: &Node, b: &Node) -> (r: bool)
    ensures
        r == (a@ == b@),
    decreases a,
{
    match (a, b) {
        (Node::Block(x), Node::Block(y)) => nodes_eq(x, y),
        (Node::NumLit(x), Node::NumLit(y)) => x == y,
        (Node::StrLit(x), Node::StrLit(y)) => x.eq(y),
        (Node::BoolLit(x), Node::BoolLit(y)) => x == y,
        (Node::Name(x), Node::Name(y)) => x.eq(y),
        (Node::Assign(n1, e1), Node::Assign(n2, e2)) => n1.eq(n2) && node_eq(e1, e2),
        (Node::IndexAssign(n1, i1, e1), Node::IndexAssign(n2, i2, e2)) => n1.eq(n2) && nodes_eq(
            i1,
            i2,
        ) && node_eq(e1, e2),
        (Node::PropAssign(n1, p1, e1), Node::PropAssign(n2, p2, e2)) => n1.eq(n2) && p1.eq(p2)
            && node_eq(e1, e2),
        (Node::Arith(o1, l1, r1), Node::Arith(o2, l2, r2)) => o1 == o2 && node_eq(l1, l2)
            && node_eq(r1, r2),
        (Node::Cmp(o1, l1, r1), Node::Cmp(o2, l2, r2)) => o1 == o2 && node_eq(l1, l2) && node_eq(
            r1,
            r2,
        ),
        (Node::PropGet(e1, p1), Node::PropGet(e2, p2)) => p1.eq(p2) && node_eq(e1, e2),
        (Node::FuncDef(n1, p1, b1), Node::FuncDef(n2, p2, b2)) => n1.eq(n2) && params_eq(p1, p2)
            && node_eq(b1, b2),
        (Node::ClassDef(n1, d1), Node::ClassDef(n2, d2)) => n1.eq(n2) && nodes_eq(d1, d2),
        (Node::Call(n1, a1), Node::Call(n2, a2)) => n1.eq(n2) && nodes_eq(a1, a2),
        (Node::Return(e1), Node::Return(e2)) => node_eq(e1, e2),
        (Node::MethodCall(r1, m1, a1), Node::MethodCall(r2, m2, a2)) => m1.eq(m2) && node_eq(
            r1,
            r2,
        ) && nodes_eq(a1, a2),
        (Node::New(n1, a1), Node::New(n2, a2)) => n1.eq(n2) && nodes_eq(a1, a2),
        (Node::If(c1, b1, e1), Node::If(c2, b2, e2)) => node_eq(c1, c2) && node_eq(b1, b2)
            && node_eq(e1, e2),
        (Node::While(c1, b1), Node::While(c2, b2)) => node_eq(c1, c2) && node_eq(b1, b2),
        (Node::For(i1, c1, s1, b1), Node::For(i2, c2, s2, b2)) => node_eq(i1, i2) && node_eq(
            c1,
            c2,
        ) && node_eq(s1, s2) && node_eq(b1, b2),
        (Node::ArrayLit(x), Node::ArrayLit(y)) => nodes_eq(x, y),
        (Node::Index(e1, i1), Node::Index(e2, i2)) => node_eq(e1, e2) && node_eq(i1, i2),
        (Node::Empty, Node::Empty) => true,
        _ => false,
    }
}

/// Structural equality of two node vectors, elementwise.
#[verifier::loop_isolation(false)]
fn nodes_eq(x: &Vec<Node>, y: &Vec<Node>) -> (r: bool)
    ensures
        r == (nodes_view(x@) == nodes_view(y@)),
    decreases x,
{
    proof {
        assert(nodes_view(x@).len() == x@.len());
        assert(nodes_view(y@).len() == y@.len());
    }
    if x.len() != y.len() {
        return false;
    }
    let mut i: usize = 0;
    while i < x.len()
        invariant
            x@.len() == y@.len(),
            i <= x.len(),
            forall|j: int| 0 <= j < i ==> x@[j]@ == y@[j]@,
        decreases x.len() - i,
    {
        if !node_eq(&x[i], &y[i]) {
            proof {
                assert(nodes_view(x@)[i as int] != nodes_view(y@)[i as int]);
            }
            return false;
        }
        i = i + 1;
    }
    proof {
        assert(nodes_view(x@) =~= nodes_view(y@));
    }
    true
}

/// Equality of two name vectors, elementwise.
#[verifier::loop_isolation(false)]
fn params_eq(x: &Vec<String>, y: &Vec<String>) -> (r: bool)
    ensures
        r == (params_view(x@) == params_view(y@)),
{
    proof {
        assert(params_view(x@).len() == x@.len());
        assert(params_view(y@).len() == y@.len());
    }
    if x.len() != y.len() {
        return false;
    }
    let mut i: usize = 0;
    while i < x.len()
        invariant
            x@.len() == y@.len(),
            i <= x.len(),
            forall|j: int| 0 <= j < i ==> x@[j]@ == y@[j]@,
        decreases x.len() - i,
    {
        if !(x[i].eq(&y[i])) {
            proof {
                assert(params_view(x@)[i as int] != params_view(y@)[i as int]);
            }
            return false;
        }
        i = i + 1;
    }
    proof {
        assert(params_view(x@) =~= params_view(y@));
    }
    true
}

/// Structural equality of two values.
#[verifier::loop_isolation(false)]
pub fn value_eq(a: &Value, b: &Value) -> (r: bool)
    ensures
        r == (a@ == b@),
    decreases a,
{
    match (a, b) {
        (Value::Null, Value::Null) => true,
        (Value::Number(x), Value::Number(y)) => x == y,
        (Value::Str(x), Value::Str(y)) => x.eq(y),
        (Value::Bool(x), Value::Bool(y)) => x == y,
        (Value::NameRef(x), Value::NameRef(y)) => x.eq(y),
        (Value::Function(n1, p1, b1), Value::Function(n2, p2, b2)) => n1.eq(n2) && params_eq(
            p1,
            p2,
        ) && node_eq(b1, b2),
        (Value::Array(x), Value::Array(y)) => {
            proof {
                assert(vals_view(x@).len() == x@.len());
                assert(vals_view(y@).len() == y@.len());
            }
            if x.len() != y.len() {
                return false;
            }
            let mut i: usize = 0;
            while i < x.len()
                invariant
                    x@.len() == y@.len(),
                    i <= x.len(),
                    forall|j: int| 0 <= j < i ==> x@[j]@ == y@[j]@,
                decreases x.len() - i,
            {
                proof {
                    assert(decreases_to!(*a => *x));
                    assert(decreases_to!(*x => x[i as int]));
                }
                if !value_eq(&x[i], &y[i]) {
                    proof {
                        assert(vals_view(x@)[i as int] != vals_view(y@)[i as int]);
                    }
                    return false;
                }
                i = i + 1;
            }
            proof {
                assert(vals_view(x@) =~= vals_view(y@));
            }
            true
        },
        (Value::Object(x), Value::Object(y)) => {
            proof {
                assert(obj_view(x@).len() == x@.len());
                assert(obj_view(y@).len() == y@.len());
            }
            if x.len() != y.len() {
                return false;
            }
            let mut i: usize = 0;
            while i < x.len()
                invariant
                    x@.len() == y@.len(),
                    i <= x.len(),
                    forall|j: int| 0 <= j < i ==> x@[j].0@ == y@[j].0@ && x@[j].1@ == y@[j].1@,
                decreases x.len() - i,
            {
                if !(x[i].0.eq(&y[i].0)) {
                    proof {
                        assert(obj_view(x@)[i as int].0 != obj_view(y@)[i as int].0);
                    }
                    return false;
                }
                proof {
                    assert(decreases_to!(*a => *x));
                    assert(decreases_to!(*x => x[i as int]));
                    assert(decreases_to!(x[i as int] => x[i as int].1));
                }
                if !value_eq(&x[i].1, &y[i].1) {
                    proof {
                        assert(obj_view(x@)[i as int].1 != obj_view(y@)[i as int].1);
                    }
                    return false;
                }
                i = i + 1;
            }
            proof {
                assert(obj_view(x@) =~= obj_view(y@));
            }
            true
        },
        _ => false,
    }
}

/// The rank of a value's kind in the fixed cross-kind order.
fn value_rank(v: &Value) -> (r: u8)
    ensures
        r as int == kind_rank(v@),
{
    match v {
        Value::Null => 0,
        Value::Number(_) => 1,
        Value::Str(_) => 2,
        Value::Bool(_) => 3,
        Value::Array(_) => 4,
        Value::NameRef(_) => 5,
        Value::Function(_, _, _) => 6,
        Value::Object(_) => 7,
    }
}

/// Lexicographic comparison of the tails of two strings from
/// character `i` on.
fn str_cmp_from(a: &str, b: &str, i: usize, alen: usize, blen: usize) -> (r: Cmp)
    requires
        alen == a@.len(),
        blen == b@.len(),
        i <= alen,
        i <= blen,
    ensures
        r == chars_cmp(
            a@.subrange(i as int, a@.len() as int),
            b@.subrange(i as int, b@.len() as int),
        ),
    decreases alen - i,
{
    if i == alen && i == blen {
        Cmp::Eq
    } else if i == alen {
        Cmp::Lt
    } else if i == blen {
        Cmp::Gt
    } else {
        let ca = a.get_char(i) as u32;
        let cb = b.get_char(i) as u32;
        proof {
            assert(a@.subrange(i as int, a@.len() as int)[0] == a@[i as int]);
            assert(b@.subrange(i as int, b@.len() as int)[0] == b@[i as int]);
            assert(a@.subrange(i as int, a@.len() as int).subrange(
                1,
                a@.len() - i,
            ) =~= a@.subrange(i + 1, a@.len() as int));
            assert(b@.subrange(i as int, b@.len() as int).subrange(
                1,
                b@.len() - i,
            ) =~= b@.subrange(i + 1, b@.len() as int));
        }
        if ca < cb {
            Cmp::Lt
        } else if ca > cb {
            Cmp::Gt
        } else {
            str_cmp_from(a, b, i + 1, alen, blen)
        }
    }
}

/// Lexicographic comparison of two strings by code point.
pub fn str_cmp(a: &str, b: &str) -> (r: Cmp)
    ensures
        r == chars_cmp(a@, b@),
{
    let alen = a.unicode_len();
    let blen = b.unicode_len();
    proof {
        assert(a@.subrange(0, a@.len() as int) =~= a@);
        assert(b@.subrange(0, b@.len() as int) =~= b@);
    }
    str_cmp_from(a, b, 0, alen, blen)
}

/// Comparison of two values in the fixed total order.
pub fn value_cmp(a: &Value, b: &Value) -> (r: Cmp)
    ensures
        r == val_cmp(a@, b@),
    decreases a, 0int,
{
    proof {
        reveal_with_fuel(val_cmp, 2);
    }
    let ra = value_rank(a);
    let rb = value_rank(b);
    match a {
        Value::Null => match b {
            Value::Null => {
                proof {
                    assert(val_cmp(a@, b@) == Cmp::Eq);
                }
                Cmp::Eq
            },
            _ => {
                proof {
                    assert(!(b@ is Null));
                }
                proof {
                    assert(kind_rank(a@) != kind_rank(b@));
                    assert(val_cmp(a@, b@) == int_cmp(kind_rank(a@), kind_rank(b@)));
                }
                if ra < rb {
                    Cmp::Lt
                } else {
                    Cmp::Gt
                }
            },
        },
        Value::Number(x) => match b {
            Value::Number(y) => {
                proof {
                    assert(val_cmp(a@, b@) == int_cmp(*x as int, *y as int));
                }
                if x < y {
                    Cmp::Lt
                } else if x > y {
                    Cmp::Gt
                } else {
                    Cmp::Eq
                }
            },
            _ => {
                proof {
                    assert(!(b@ is Number));
                }
                proof {
                    assert(kind_rank(a@) != kind_rank(b@));
                    assert(val_cmp(a@, b@) == int_cmp(kind_rank(a@), kind_rank(b@)));
                }
                if ra < rb {
                    Cmp::Lt
                } else {
                    Cmp::Gt
                }
            },
        },
        Value::Str(x) => match b {
            Value::Str(y) => {
                proof {
                    assert(val_cmp(a@, b@) == chars_cmp(x@, y@));
                }
                str_cmp(x.as_str(), y.as_str())
            },
            _ => {
                proof {
                    assert(!(b@ is Str));
                }
                proof {
                    assert(kind_rank(a@) != kind_rank(b@));
                    assert(val_cmp(a@, b@) == int_cmp(kind_rank(a@), kind_rank(b@)));
                }
                if ra < rb {
                    Cmp::Lt
                } else {
                    Cmp::Gt
                }
            },
        },
        Value::Bool(x) => match b {
            Value::Bool(y) => {
                proof {
                    assert(val_cmp(a@, b@) == (if x == y {
                        Cmp::Eq
                    } else if !*x {
                        Cmp::Lt
                    } else {
                        Cmp::Gt
                    }));
                }
                if x == y {
                    Cmp::Eq
                } else if !*x {
                    Cmp::Lt
                } else {
                    Cmp::Gt
                }
            },
            _ => {
                proof {
                    assert(!(b@ is Bool));
                }
                proof {
                    assert(kind_rank(a@) != kind_rank(b@));
                    assert(val_cmp(a@, b@) == int_cmp(kind_rank(a@), kind_rank(b@)));
                }
                if ra < rb {
                    Cmp::Lt
                } else {
                    Cmp::Gt
                }
            },
        },
        Value::Array(x) => match b {
            Value::Array(y) => {
                proof {
                    assert(vals_view(x@).subrange(0, vals_view(x@).len() as int) =~= vals_view(
                        x@,
                    ));
                    assert(vals_view(y@).subrange(0, vals_view(y@).len() as int) =~= vals_view(
                        y@,
                    ));
                }
                proof {
                    assert(val_cmp(a@, b@) == arr_cmp(vals_view(x@), vals_view(y@)));
                }
                arr_cmp_from(x, y, 0)
            },
            _ => {
                proof {
                    assert(!(b@ is Array));
                }
                proof {
                    assert(kind_rank(a@) != kind_rank(b@));
                    assert(val_cmp(a@, b@) == int_cmp(kind_rank(a@), kind_rank(b@)));
                }
                if ra < rb {
                    Cmp::Lt
                } else {
                    Cmp::Gt
                }
            },
        },
        Value::NameRef(x) => match b {
            Value::NameRef(y) => {
                proof {
                    assert(val_cmp(a@, b@) == chars_cmp(x@, y@));
                }
                str_cmp(x.as_str(), y.as_str())
            },
            _ => {
                proof {
                    assert(!(b@ is NameRef));
                }
                proof {
                    assert(kind_rank(a@) != kind_rank(b@));
                    assert(val_cmp(a@, b@) == int_cmp(kind_rank(a@), kind_rank(b@)));
                }
                if ra < rb {
                    Cmp::Lt
                } else {
                    Cmp::Gt
                }
            },
        },
        Value::Function(n1, _, _) => match b {
            Value::Function(n2, _, _) => {
                proof {
                    assert(val_cmp(a@, b@) == chars_cmp(n1@, n2@));
                }
                str_cmp(n1.as_str(), n2.as_str())
            },
            _ => {
                proof {
                    assert(!(b@ is Function));
                }
                proof {
                    assert(kind_rank(a@) != kind_rank(b@));
                    assert(val_cmp(a@, b@) == int_cmp(kind_rank(a@), kind_rank(b@)));
                }
                if ra < rb {
                    Cmp::Lt
                } else {
                    Cmp::Gt
                }
            },
        },
        Value::Object(x) => match b {
            Value::Object(y) => {
                proof {
                    assert(val_cmp(a@, b@) == int_cmp(
                        obj_view(x@).len() as int,
                        obj_view(y@).len() as int,
                    ));
                }
                if x.len() < y.len() {
                    Cmp::Lt
                } else if x.len() > y.len() {
                    Cmp::Gt
                } else {
                    Cmp::Eq
                }
            },
            _ => {
                proof {
                    assert(!(b@ is Object));
                }
                proof {
                    assert(kind_rank(a@) != kind_rank(b@));
                    assert(val_cmp(a@, b@) == int_cmp(kind_rank(a@), kind_rank(b@)));
                }
                if ra < rb {
                    Cmp::Lt
                } else {
                    Cmp::Gt
                }
            },
        },
    }
}

/// Lexicographic comparison of the tails of two arrays from element
/// `i` on.
fn arr_cmp_from(x: &Vec<Value>, y: &Vec<Value>, i: usize) -> (r: Cmp)
    requires
        i <= x@.len(),
        i <= y@.len(),
    ensures
        r == arr_cmp(
            vals_view(x@).subrange(i as int, x@.len() as int),
            vals_view(y@).subrange(i as int, y@.len() as int),
        ),
    decreases x, x@.len() - i,
{
    if i == x.len() && i == y.len() {
        Cmp::Eq
    } else if i == x.len() {
        Cmp::Lt
    } else if i == y.len() {
        Cmp::Gt
    } else {
        proof {
            assert(vals_view(x@).subrange(i as int, x@.len() as int)[0] == x@[i as int]@);
            assert(vals_view(y@).subrange(i as int, y@.len() as int)[0] == y@[i as int]@);
            assert(vals_view(x@).subrange(i as int, x@.len() as int).subrange(
                1,
                x@.len() - i,
            ) =~= vals_view(x@).subrange(i + 1, x@.len() as int));
            assert(vals_view(y@).subrange(i as int, y@.len() as int).subrange(
                1,
                y@.len() - i,
            ) =~= vals_view(y@).subrange(i + 1, y@.len() as int));
        }
        match value_cmp(&x[i], &y[i]) {
            Cmp::Eq => arr_cmp_from(x, y, i + 1),
            c => c,
        }
    }
}

/// A found first match determines `props_get`.
proof fn lemma_props_get_found(s: Seq<(Seq<char>, ValueV)>, k: Seq<char>, j: int)
    requires
        0 <= j < s.len(),
        s[j].0 == k,
        forall|l: int| 0 <= l < j ==> s[l].0 != k,
    ensures
        props_get(s, k) == Some(s[j].1),
    decreases j,
{
    assert(props_get(s, k) == if s.len() == 0 {
        None::<ValueV>
    } else if s[0].0 == k {
        Some(s[0].1)
    } else {
        props_get(s.subrange(1, s.len() as int), k)
    });
    if j > 0 {
        lemma_props_get_found(s.subrange(1, s.len() as int), k, j - 1);
    }
}

/// With no match anywhere, `props_get` finds nothing.
proof fn lemma_props_get_none(s: Seq<(Seq<char>, ValueV)>, k: Seq<char>)
    requires
        forall|l: int| 0 <= l < s.len() ==> s[l].0 != k,
    ensures
        props_get(s, k) is None,
    decreases s.len(),
{
    assert(props_get(s, k) == if s.len() == 0 {
        None::<ValueV>
    } else if s[0].0 == k {
        Some(s[0].1)
    } else {
        props_get(s.subrange(1, s.len() as int), k)
    });
    if s.len() > 0 {
        lemma_props_get_none(s.subrange(1, s.len() as int), k);
    }
}

/// Replacing the first match in place realizes `props_set`.
proof fn lemma_props_set_update(s: Seq<(Seq<char>, ValueV)>, k: Seq<char>, v: ValueV, j: int)
    requires
        0 <= j < s.len(),
        s[j].0 == k,
        forall|l: int| 0 <= l < j ==> s[l].0 != k,
    ensures
        props_set(s, k, v) == s.update(j, (k, v)),
    decreases j,
{
    assert(props_set(s, k, v) == if s.len() == 0 {
        seq![(k, v)]
    } else if s[0].0 == k {
        seq![(k, v)] + s.subrange(1, s.len() as int)
    } else {
        seq![s[0]] + props_set(s.subrange(1, s.len() as int), k, v)
    });
    if j == 0 {
        assert(props_set(s, k, v) =~= s.update(0, (k, v)));
    } else {
        lemma_props_set_update(s.subrange(1, s.len() as int), k, v, j - 1);
        assert(s.subrange(1, s.len() as int).update(j - 1, (k, v)) =~= s.update(
            j,
            (k, v),
        ).subrange(1, s.len() as int));
        assert(props_set(s, k, v) =~= s.update(j, (k, v)));
    }
}

/// Appending realizes `props_set` when the key is new.
proof fn lemma_props_set_push(s: Seq<(Seq<char>, ValueV)>, k: Seq<char>, v: ValueV)
    requires
        forall|l: int| 0 <= l < s.len() ==> s[l].0 != k,
    ensures
        props_set(s, k, v) == s.push((k, v)),
    decreases s.len(),
{
    assert(props_set(s, k, v) == if s.len() == 0 {
        seq![(k, v)]
    } else if s[0].0 == k {
        seq![(k, v)] + s.subrange(1, s.len() as int)
    } else {
        seq![s[0]] + props_set(s.subrange(1, s.len() as int), k, v)
    });
    if s.len() == 0 {
        assert(props_set(s, k, v) =~= s.push((k, v)));
    } else {
        lemma_props_set_push(s.subrange(1, s.len() as int), k, v);
        assert(s.subrange(1, s.len() as int).push((k, v)) =~= s.push((k, v)).subrange(
            1,
            s.len() as int + 1,
        ));
        assert(props_set(s, k, v) =~= s.push((k, v)));
    }
}

/// The position of the first property named `k`, if any.
#[verifier::loop_isolation(false)]
fn props_find(ps: &Vec<(String, Value)>, k: &str) -> (r: Option<usize>)
    ensures
        match r {
            Some(j) => {
                &&& j < ps@.len()
                &&& ps@[j as int].0@ == k@
                &&& forall|l: int| 0 <= l < j ==> ps@[l].0@ != k@
                &&& props_get(obj_view(ps@), k@) == Some(ps@[j as int].1@)
            },
            None => {
                &&& props_get(obj_view(ps@), k@) is None
                &&& forall|l: int| 0 <= l < ps@.len() ==> ps@[l].0@ != k@
            },
        },
{
    let mut j: usize = 0;
    while j < ps.len()
        invariant
            j <= ps@.len(),
            forall|l: int| 0 <= l < j ==> ps@[l].0@ != k@,
        decreases ps@.len() - j,
    {
        if str_eq(ps[j].0.as_str(), k) {
            proof {
                lemma_props_get_found(obj_view(ps@), k@, j as int);
            }
            return Some(j);
        }
        j = j + 1;
    }
    proof {
        lemma_props_get_none(obj_view(ps@), k@);
    }
    None
}

/// A deep copy of the property named `k`, if the object has it.
pub fn object_get(ps: &Vec<(String, Value)>, k: &str) -> (r: Option<Value>)
    ensures
        match r {
            Some(v) => props_get(obj_view(ps@), k@) == Some(v@),
            None => props_get(obj_view(ps@), k@) is None,
        },
{
    match props_find(ps, k) {
        Some(j) => Some(deep_clone(&ps[j].1)),
        None => None,
    }
}

/// The property map with `k` bound to `v`, replacing the first entry
/// of that name or appending a new one.
pub fn object_set(ps: Vec<(String, Value)>, k: &str, v: Value) -> (r: Vec<(String, Value)>)
    ensures
        obj_view(r@) == props_set(obj_view(ps@), k@, v@),
{
    let mut ps = ps;
    match props_find(&ps, k) {
        Some(j) => {
            proof {
                lemma_props_set_update(obj_view(ps@), k@, v@, j as int);
            }
            let ghost before = obj_view(ps@);
            ps.set(j, (k.to_owned(), v));
            proof {
                assert(obj_view(ps@) =~= before.update(j as int, (k@, v@)));
            }
            ps
        },
        None => {
            proof {
                lemma_props_set_push(obj_view(ps@), k@, v@);
            }
            let ghost before = obj_view(ps@);
            ps.push((k.to_owned(), v));
            proof {
                assert(obj_view(ps@) =~= before.push((k@, v@)));
            }
            ps
        },
    }
}

} // verus!
