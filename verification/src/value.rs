//! The tagged union of runtime values, and its equality and ordering.
//!
//! Equality is structural. An object's property map is an ordered
//! sequence of bindings, and equality compares it as such: two
//! objects whose properties were bound in different orders compare
//! unequal. This order-sensitivity is a deliberate, documented part
//! of the language's observable behavior; within one class all
//! instances share the template's property order, so it surfaces
//! only when comparing instances of different shapes. Ordering is total and deterministic: values
//! of different kinds order by a fixed kind rank (null, number, string,
//! boolean, array, name reference, function, object); within one kind,
//! numbers order numerically, strings and name references
//! lexicographically by code point, booleans with false before true,
//! arrays lexicographically element by element, functions by their
//! declared name, and objects by how many properties they hold.

use vstd::prelude::*;
use std::rc::Rc;
use crate::ast::Node;
use crate::ast::NodeV;
use crate::ast::params_view;

verus! {

broadcast use vstd::group_vstd_default;

/// The result of comparing two values.
#[derive(Clone, Copy, PartialEq, Eq, Structural, Debug)]
pub enum Cmp {
    Lt,
    Eq,
    Gt,
}

/// A runtime value.
pub enum Value {
    /// The null value; also what an absent variable reads as.
    Null,
    /// A number.
    Number(i64),
    /// A string.
    Str(String),
    /// A boolean.
    Bool(bool),
    /// An ordered, mutable sequence of owned values.
    Array(Vec<Value>),
    /// A deferred variable reference, resolved against a frame when
    /// consumed.
    NameRef(String),
    /// A function: declared name, formal parameter names, body. No
    /// enclosing scope is captured.
    Function(String, Vec<String>, Rc<Node>),
    /// An object: an ordered map from property name to owned value,
    /// used both for class templates and for instances.
    Object(Vec<(String, Value)>),
}

/// The mathematical form of a runtime value.
pub enum ValueV {
    Null,
    Number(i64),
    Str(Seq<char>),
    Bool(bool),
    Array(Seq<ValueV>),
    NameRef(Seq<char>),
    Function(Seq<char>, Seq<Seq<char>>, Box<NodeV>),
    Object(Seq<(Seq<char>, ValueV)>),
}

/// The views of a vector of values, elementwise.
pub open spec fn vals_view(s: Seq<Value>) -> Seq<ValueV>
    decreases s,
{
    if s.len() == 0 {
        Seq::empty()
    } else {
        seq![s[0]@] + vals_view(s.subrange(1, s.len() as int))
    }
}

/// The length of an elementwise value view.
pub broadcast proof fn vals_view_len(s: Seq<Value>)
    ensures
        (#[trigger] vals_view(s)).len() == s.len(),
    decreases s.len(),
{
    if s.len() > 0 {
        vals_view_len(s.subrange(1, s.len() as int));
        assert(vals_view(s) == seq![s[0]@] + vals_view(s.subrange(1, s.len() as int)));
    }
}

/// Each entry of an elementwise value view.
pub broadcast proof fn vals_view_index(s: Seq<Value>, i: int)
    requires
        0 <= i < s.len(),
    ensures
        #[trigger] vals_view(s)[i] == s[i]@,
    decreases i,
{
    vals_view_len(s);
    assert(vals_view(s) == seq![s[0]@] + vals_view(s.subrange(1, s.len() as int)));
    if i > 0 {
        vals_view_index(s.subrange(1, s.len() as int), i - 1);
        assert(vals_view(s)[i] == vals_view(s.subrange(1, s.len() as int))[i - 1]);
    }
}

/// The views of a vector of properties, elementwise.
pub open spec fn obj_view(s: Seq<(String, Value)>) -> Seq<(Seq<char>, ValueV)>
    decreases s,
{
    if s.len() == 0 {
        Seq::empty()
    } else {
        seq![(s[0].0@, s[0].1@)] + obj_view(s.subrange(1, s.len() as int))
    }
}

/// The length of an elementwise property view.
pub broadcast proof fn obj_view_len(s: Seq<(String, Value)>)
    ensures
        (#[trigger] obj_view(s)).len() == s.len(),
    decreases s.len(),
{
    if s.len() > 0 {
        obj_view_len(s.subrange(1, s.len() as int));
        assert(obj_view(s) == seq![(s[0].0@, s[0].1@)] + obj_view(s.subrange(1, s.len() as int)));
    }
}

/// Each entry of an elementwise property view.
pub broadcast proof fn obj_view_index(s: Seq<(String, Value)>, i: int)
    requires
        0 <= i < s.len(),
    ensures
        #[trigger] obj_view(s)[i] == (s[i].0@, s[i].1@),
    decreases i,
{
    obj_view_len(s);
    assert(obj_view(s) == seq![(s[0].0@, s[0].1@)] + obj_view(s.subrange(1, s.len() as int)));
    if i > 0 {
        obj_view_index(s.subrange(1, s.len() as int), i - 1);
        assert(obj_view(s)[i] == obj_view(s.subrange(1, s.len() as int))[i - 1]);
    }
}

/// The lemmas that characterize the elementwise views.
pub broadcast group group_value_views {
    vals_view_len,
    vals_view_index,
    obj_view_len,
    obj_view_index,
}

impl View for Value {
    type V = ValueV;

    open spec fn view(&self) -> ValueV
        decreases self,
    {
        match self {
            Value::Null => ValueV::Null,
            Value::Number(n) => ValueV::Number(*n),
            Value::Str(s) => ValueV::Str(s@),
            Value::Bool(b) => ValueV::Bool(*b),
            Value::Array(es) => ValueV::Array(vals_view(es@)),
            Value::NameRef(n) => ValueV::NameRef(n@),
            Value::Function(n, ps, b) => ValueV::Function(n@, params_view(ps@), Box::new((**b)@)),
            Value::Object(ps) => ValueV::Object(obj_view(ps@)),
        }
    }
}

/// The rank that orders value kinds in heterogeneous comparisons.
pub open spec fn kind_rank(v: ValueV) -> int {
    match v {
        ValueV::Null => 0,
        ValueV::Number(_) => 1,
        ValueV::Str(_) => 2,
        ValueV::Bool(_) => 3,
        ValueV::Array(_) => 4,
        ValueV::NameRef(_) => 5,
        ValueV::Function(_, _, _) => 6,
        ValueV::Object(_) => 7,
    }
}

/// Comparison of two integers.
pub open spec fn int_cmp(a: int, b: int) -> Cmp {
    if a < b {
        Cmp::Lt
    } else if a > b {
        Cmp::Gt
    } else {
        Cmp::Eq
    }
}

/// Lexicographic comparison of two character sequences by code point;
/// a proper prefix orders before the longer sequence.
pub open spec fn chars_cmp(a: Seq<char>, b: Seq<char>) -> Cmp
    decreases a.len(),
{
    if a.len() == 0 && b.len() == 0 {
        Cmp::Eq
    } else if a.len() == 0 {
        Cmp::Lt
    } else if b.len() == 0 {
        Cmp::Gt
    } else if (a[0] as u32) < (b[0] as u32) {
        Cmp::Lt
    } else if (a[0] as u32) > (b[0] as u32) {
        Cmp::Gt
    } else {
        chars_cmp(a.subrange(1, a.len() as int), b.subrange(1, b.len() as int))
    }
}

/// The fixed total order over values: by kind rank across kinds, and
/// within one kind as documented at the top of this module.
pub open spec fn val_cmp(a: ValueV, b: ValueV) -> Cmp
    decreases a,
{
    if kind_rank(a) != kind_rank(b) {
        int_cmp(kind_rank(a), kind_rank(b))
    } else {
        match (a, b) {
            (ValueV::Number(x), ValueV::Number(y)) => int_cmp(x as int, y as int),
            (ValueV::Str(x), ValueV::Str(y)) => chars_cmp(x, y),
            (ValueV::Bool(x), ValueV::Bool(y)) => if x == y {
                Cmp::Eq
            } else if !x {
                Cmp::Lt
            } else {
                Cmp::Gt
            },
            (ValueV::Array(x), ValueV::Array(y)) => arr_cmp(x, y),
            (ValueV::NameRef(x), ValueV::NameRef(y)) => chars_cmp(x, y),
            (ValueV::Function(n1, _, _), ValueV::Function(n2, _, _)) => chars_cmp(n1, n2),
            (ValueV::Object(p1), ValueV::Object(p2)) => int_cmp(
                p1.len() as int,
                p2.len() as int,
            ),
            _ => Cmp::Eq,
        }
    }
}

/// Lexicographic comparison of two arrays, element by element; a
/// proper prefix orders before the longer array.
pub open spec fn arr_cmp(x: Seq<ValueV>, y: Seq<ValueV>) -> Cmp
    decreases x,
{
    if x.len() == 0 && y.len() == 0 {
        Cmp::Eq
    } else if x.len() == 0 {
        Cmp::Lt
    } else if y.len() == 0 {
        Cmp::Gt
    } else {
        match val_cmp(x[0], y[0]) {
            Cmp::Eq => arr_cmp(
                x.subrange(1, x.len() as int),
                y.subrange(1, y.len() as int),
            ),
            c => c,
        }
    }
}

/// The property named `k` in an object's property map, if present.
pub open spec fn props_get(ps: Seq<(Seq<char>, ValueV)>, k: Seq<char>) -> Option<ValueV>
    decreases ps.len(),
{
    if ps.len() == 0 {
        None
    } else if ps[0].0 == k {
        Some(ps[0].1)
    } else {
        props_get(ps.subrange(1, ps.len() as int), k)
    }
}

/// The property map with `k` bound to `v`: an existing entry is
/// replaced in place, a new one is appended.
pub open spec fn props_set(
    ps: Seq<(Seq<char>, ValueV)>,
    k: Seq<char>,
    v: ValueV,
) -> Seq<(Seq<char>, ValueV)>
    decreases ps.len(),
{
    if ps.len() == 0 {
        seq![(k, v)]
    } else if ps[0].0 == k {
        seq![(k, v)] + ps.subrange(1, ps.len() as int)
    } else {
        seq![ps[0]] + props_set(ps.subrange(1, ps.len() as int), k, v)
    }
}

} // verus!
