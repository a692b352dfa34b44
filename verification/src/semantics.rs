//! The specification-level interpreter: the language's meaning.
//!
//! Every function here is pure specification. Evaluation is given a
//! finite step budget (`fuel`); each nested evaluation spends one step,
//! and a program that has not finished when the budget runs out fails
//! with `StepLimit`. The executable evaluator in `eval` is proved to
//! return exactly what these functions prescribe, for the same budget.
//!
//! Design choices made precise here, and part of the language:
//! - `return` unwinds every enclosing block and loop up to the nearest
//!   function, method, or constructor boundary, which yields the
//!   returned value; a `return` propagating out of an operand position
//!   also abandons the surrounding expression.
//! - Objects have value semantics: frames, argument binding, and
//!   construction copy object values; a method mutates only the copy
//!   bound to `self` in its own frame.
//! - Arithmetic wraps around the 64-bit signed range; division is
//!   truncated, and division by zero yields 0.
//! - Reading an array at a negative index reads element 0 (the index
//!   saturates from below); writing demands a non-negative index and
//!   fails with the index error otherwise.
//! - An arithmetic expression whose left operand is a string yields
//!   the string followed by the rendered right operand, whatever the
//!   operator; a string on the right does not trigger concatenation.
//!   Other non-numeric operands count as 0.

use vstd::prelude::*;
use crate::ast::ArithOp;
use crate::ast::CmpOp;
use crate::ast::NodeV;
use crate::errors::EvalError;
use crate::numfmt::dec_int;
use crate::value::Cmp;
use crate::value::ValueV;
use crate::value::props_get;
use crate::value::props_set;
use crate::value::val_cmp;

verus! {

broadcast use vstd::group_vstd_default;

/// The whole evaluation state: the current frame's bindings, the
/// process-wide heap of functions and class templates, and the lines
/// printed so far.
pub struct StateV {
    pub frame: Map<Seq<char>, ValueV>,
    pub heap: Map<Seq<char>, ValueV>,
    pub out: Seq<Seq<char>>,
}

/// How a finished evaluation hands its value back: normally, or
/// unwinding from a `return`.
pub enum FlowV {
    Normal(ValueV),
    Return(ValueV),
}

impl FlowV {
    /// The carried value, however it flows.
    pub open spec fn value(self) -> ValueV {
        match self {
            FlowV::Normal(v) => v,
            FlowV::Return(v) => v,
        }
    }
}

/// One evaluation's outcome: its flow or error, and the state after.
pub struct StepV {
    pub res: Result<FlowV, EvalError>,
    pub st: StateV,
}

/// The outcome of evaluating a list of expressions.
pub enum ListRes {
    /// Every expression finished normally; the values, in order.
    Vals(Seq<ValueV>),
    /// A `return` unwound out of one of the expressions.
    Stop(FlowV),
    /// One of the expressions failed.
    Fail(EvalError),
}

/// The outcome and state of evaluating a list of expressions.
pub struct ListStepV {
    pub res: ListRes,
    pub st: StateV,
}

/// What the name is bound to in the current frame; an absent variable
/// reads as null.
pub open spec fn frame_read(st: StateV, n: Seq<char>) -> ValueV {
    if st.frame.contains_key(n) {
        st.frame[n]
    } else {
        ValueV::Null
    }
}

/// A name reference resolved against the current frame; any other
/// value is itself.
pub open spec fn resolve_ref(frame: Map<Seq<char>, ValueV>, v: ValueV) -> ValueV {
    match v {
        ValueV::NameRef(n) => if frame.contains_key(n) {
            frame[n]
        } else {
            ValueV::Null
        },
        _ => v,
    }
}

/// Truncated integer division (rounding toward zero), as the machine
/// divides.
pub open spec fn trunc_div(x: int, d: int) -> int {
    if x == 0 {
        0
    } else if x > 0 && d > 0 {
        x / d
    } else if x < 0 && d < 0 {
        (x * -1) / (d * -1)
    } else if x < 0 {
        ((x * -1) / d) * -1
    } else {
        (x / (d * -1)) * -1
    }
}

/// The numeric value an operand contributes to arithmetic: a number
/// itself, a name reference that resolves to a number, and 0 for
/// everything else.
pub open spec fn num_coerce(frame: Map<Seq<char>, ValueV>, v: ValueV) -> i64 {
    match v {
        ValueV::Number(f) => f,
        ValueV::NameRef(n) => if frame.contains_key(n) {
            match frame[n] {
                ValueV::Number(f) => f,
                _ => 0,
            }
        } else {
            0
        },
        _ => 0,
    }
}

/// Arithmetic on two numbers: wrapping around the 64-bit signed
/// range; division truncates, divides by zero to 0, and wraps on the
/// one overflowing quotient.
pub open spec fn arith_num(op: ArithOp, a: i64, b: i64) -> i64 {
    match op {
        ArithOp::Add => vstd::wrapping::i64_specs::wrapping_add(a, b),
        ArithOp::Sub => vstd::wrapping::i64_specs::wrapping_sub(a, b),
        ArithOp::Mul => vstd::wrapping::i64_specs::wrapping_mul(a, b),
        ArithOp::Div => if b == 0 {
            0
        } else if a == i64::MIN && b == -1 {
            i64::MIN
        } else {
            trunc_div(a as int, b as int) as i64
        },
    }
}

/// The boolean a comparison yields, from the fixed total order over
/// values; equality is structural.
pub open spec fn cmp_result(op: CmpOp, a: ValueV, b: ValueV) -> bool {
    match op {
        CmpOp::Eq => a == b,
        CmpOp::Ne => a != b,
        CmpOp::Ge => val_cmp(a, b) != Cmp::Lt,
        CmpOp::Le => val_cmp(a, b) != Cmp::Gt,
        CmpOp::Lt => val_cmp(a, b) == Cmp::Lt,
        CmpOp::Gt => val_cmp(a, b) == Cmp::Gt,
    }
}

/// The index chain as machine indices, if every index value is a
/// non-negative number.
pub open spec fn to_indices(ivs: Seq<ValueV>) -> Option<Seq<int>>
    decreases ivs.len(),
{
    if ivs.len() == 0 {
        Some(Seq::empty())
    } else {
        match ivs[0] {
            ValueV::Number(f) => if f >= 0 {
                match to_indices(ivs.subrange(1, ivs.len() as int)) {
                    Some(rest) => Some(seq![f as int] + rest),
                    None => None,
                }
            } else {
                None
            },
            _ => None,
        }
    }
}

/// `cur` with the slot reached by descending the index chain
/// overwritten by `v`; fails if anything on the way is not an array
/// or an index is out of bounds.
pub open spec fn set_index_chain(cur: ValueV, idxs: Seq<int>, v: ValueV) -> Result<
    ValueV,
    EvalError,
>
    decreases idxs.len(),
{
    if idxs.len() == 0 {
        Ok(v)
    } else {
        match cur {
            ValueV::Array(es) => {
                let i = idxs[0];
                if 0 <= i < es.len() {
                    if idxs.len() == 1 {
                        Ok(ValueV::Array(es.update(i, v)))
                    } else {
                        match set_index_chain(es[i], idxs.subrange(1, idxs.len() as int), v) {
                            Ok(e2) => Ok(ValueV::Array(es.update(i, e2))),
                            Err(e) => Err(e),
                        }
                    }
                } else {
                    Err(EvalError::IndexError)
                }
            },
            _ => Err(EvalError::IndexError),
        }
    }
}

/// The property map of a class template built from its body, grown
/// from `acc` (the `~name` binding): each function definition becomes
/// a method property, and a repeated method name overrides the
/// earlier binding in place, so the last definition wins. Anything
/// besides a function definition refuses the whole class.
pub open spec fn class_methods(
    ds: Seq<NodeV>,
    acc: Seq<(Seq<char>, ValueV)>,
) -> Option<Seq<(Seq<char>, ValueV)>>
    decreases ds.len(),
{
    if ds.len() == 0 {
        Some(acc)
    } else {
        match ds[0] {
            NodeV::FuncDef(n, ps, b) => class_methods(
                ds.subrange(1, ds.len() as int),
                props_set(acc, n, ValueV::Function(n, ps, b)),
            ),
            _ => None,
        }
    }
}

/// `base` with each name bound to the value at the same position;
/// bound left to right, so a repeated name keeps its last value.
pub open spec fn bind_list(
    names: Seq<Seq<char>>,
    vals: Seq<ValueV>,
    base: Map<Seq<char>, ValueV>,
) -> Map<Seq<char>, ValueV>
    decreases names.len(),
{
    if names.len() == 0 || vals.len() == 0 {
        base
    } else {
        bind_list(
            names.subrange(1, names.len() as int),
            vals.subrange(1, vals.len() as int),
            base.insert(names[0], vals[0]),
        )
    }
}

/// Parameter names joined with commas, for rendering a function.
pub open spec fn join_names(ps: Seq<Seq<char>>) -> Seq<char>
    decreases ps.len(),
{
    if ps.len() == 0 {
        Seq::empty()
    } else if ps.len() == 1 {
        ps[0]
    } else {
        ps[0] + ", "@ + join_names(ps.subrange(1, ps.len() as int))
    }
}

/// Evaluates one node. The single dispatch point: every rule of the
/// language is one arm here or one helper below.
pub open spec fn sp_eval(n: NodeV, st: StateV, fuel: nat) -> StepV
    decreases fuel,
{
    if fuel == 0 {
        StepV { res: Err(EvalError::StepLimit), st }
    } else {
        let f = (fuel - 1) as nat;
        match n {
            NodeV::Block(ss) => sp_block(ss, st, f),
            NodeV::NumLit(x) => StepV { res: Ok(FlowV::Normal(ValueV::Number(x))), st },
            NodeV::StrLit(s) => StepV { res: Ok(FlowV::Normal(ValueV::Str(s))), st },
            NodeV::BoolLit(b) => StepV { res: Ok(FlowV::Normal(ValueV::Bool(b))), st },
            NodeV::Name(x) => StepV { res: Ok(FlowV::Normal(frame_read(st, x))), st },
            NodeV::Empty => StepV { res: Ok(FlowV::Normal(ValueV::Null)), st },
            NodeV::Assign(x, e) => {
                let s1 = sp_eval(*e, st, f);
                match s1.res {
                    Ok(FlowV::Normal(v)) => StepV {
                        res: Ok(FlowV::Normal(v)),
                        st: StateV { frame: s1.st.frame.insert(x, v), ..s1.st },
                    },
                    _ => s1,
                }
            },
            NodeV::IndexAssign(x, idxs, e) => {
                let l1 = sp_eval_list(idxs, false, st, f);
                match l1.res {
                    ListRes::Fail(err) => StepV { res: Err(err), st: l1.st },
                    ListRes::Stop(flow) => StepV { res: Ok(flow), st: l1.st },
                    ListRes::Vals(ivs) => {
                        let s2 = sp_eval(*e, l1.st, f);
                        match s2.res {
                            Ok(FlowV::Normal(v)) => match to_indices(ivs) {
                                Some(ii) => match set_index_chain(
                                    frame_read(s2.st, x),
                                    ii,
                                    v,
                                ) {
                                    Ok(c2) => StepV {
                                        res: Ok(FlowV::Normal(v)),
                                        st: StateV {
                                            frame: s2.st.frame.insert(x, c2),
                                            ..s2.st
                                        },
                                    },
                                    Err(err) => StepV { res: Err(err), st: s2.st },
                                },
                                None => StepV { res: Err(EvalError::IndexError), st: s2.st },
                            },
                            _ => s2,
                        }
                    },
                }
            },
            NodeV::PropAssign(x, p, e) => {
                let s1 = sp_eval(*e, st, f);
                match s1.res {
                    Ok(FlowV::Normal(v)) => match frame_read(s1.st, x) {
                        ValueV::Object(ps) => StepV {
                            res: Ok(FlowV::Normal(v)),
                            st: StateV {
                                frame: s1.st.frame.insert(x, ValueV::Object(props_set(ps, p, v))),
                                ..s1.st
                            },
                        },
                        _ => StepV { res: Err(EvalError::TypeError), st: s1.st },
                    },
                    _ => s1,
                }
            },
            NodeV::Arith(op, l, r) => {
                let s1 = sp_eval(*l, st, f);
                match s1.res {
                    Ok(FlowV::Normal(lv)) => {
                        let s2 = sp_eval(*r, s1.st, f);
                        match s2.res {
                            Ok(FlowV::Normal(rv)) => match lv {
                                ValueV::Str(s) => match sp_render(rv, f) {
                                    Ok(t) => StepV {
                                        res: Ok(FlowV::Normal(ValueV::Str(s + t))),
                                        st: s2.st,
                                    },
                                    Err(err) => StepV { res: Err(err), st: s2.st },
                                },
                                _ => StepV {
                                    res: Ok(
                                        FlowV::Normal(
                                            ValueV::Number(
                                                arith_num(
                                                    op,
                                                    num_coerce(s2.st.frame, lv),
                                                    num_coerce(s2.st.frame, rv),
                                                ),
                                            ),
                                        ),
                                    ),
                                    st: s2.st,
                                },
                            },
                            _ => s2,
                        }
                    },
                    _ => s1,
                }
            },
            NodeV::Cmp(op, l, r) => {
                let s1 = sp_eval(*l, st, f);
                match s1.res {
                    Ok(FlowV::Normal(lv)) => {
                        let s2 = sp_eval(*r, s1.st, f);
                        match s2.res {
                            Ok(FlowV::Normal(rv)) => StepV {
                                res: Ok(FlowV::Normal(ValueV::Bool(cmp_result(op, lv, rv)))),
                                st: s2.st,
                            },
                            _ => s2,
                        }
                    },
                    _ => s1,
                }
            },
            NodeV::PropGet(e, p) => {
                let s1 = sp_eval(*e, st, f);
                match s1.res {
                    Ok(FlowV::Normal(v)) => match v {
                        ValueV::Object(ps) => match props_get(ps, p) {
                            Some(pv) => StepV { res: Ok(FlowV::Normal(pv)), st: s1.st },
                            None => StepV { res: Err(EvalError::PropertyError), st: s1.st },
                        },
                        _ => StepV { res: Err(EvalError::TypeError), st: s1.st },
                    },
                    _ => s1,
                }
            },
            NodeV::FuncDef(x, ps, b) => {
                let fv = ValueV::Function(x, ps, b);
                StepV {
                    res: Ok(FlowV::Normal(fv)),
                    st: StateV { heap: st.heap.insert(x, fv), ..st },
                }
            },
            NodeV::ClassDef(x, ds) => match class_methods(
                ds,
                seq![("~name"@, ValueV::Str(x))],
            ) {
                Some(ms) => {
                    let tmpl = ValueV::Object(ms);
                    StepV {
                        res: Ok(FlowV::Normal(tmpl)),
                        st: StateV { heap: st.heap.insert(x, tmpl), ..st },
                    }
                },
                None => StepV { res: Err(EvalError::UnexpectedNodeError), st },
            },
            NodeV::Call(x, args) => sp_call(x, args, st, f),
            NodeV::Return(e) => {
                let s1 = sp_eval(*e, st, f);
                match s1.res {
                    Ok(flow) => StepV { res: Ok(FlowV::Return(flow.value())), st: s1.st },
                    _ => s1,
                }
            },
            NodeV::MethodCall(recv, m, args) => sp_method(*recv, m, args, st, f),
            NodeV::New(x, args) => sp_new(x, args, st, f),
            NodeV::If(c, b, e) => {
                let s1 = sp_eval(*c, st, f);
                match s1.res {
                    Ok(FlowV::Normal(cv)) => if cv == ValueV::Bool(true) {
                        sp_eval(*b, s1.st, f)
                    } else {
                        sp_eval(*e, s1.st, f)
                    },
                    _ => s1,
                }
            },
            NodeV::While(c, b) => sp_while(*c, *b, ValueV::Null, st, f),
            NodeV::For(init, c, step, b) => {
                let s1 = sp_eval(*init, st, f);
                match s1.res {
                    Ok(FlowV::Normal(_)) => sp_for(*c, *step, *b, ValueV::Null, s1.st, f),
                    _ => s1,
                }
            },
            NodeV::ArrayLit(es) => {
                let l1 = sp_eval_list(es, false, st, f);
                match l1.res {
                    ListRes::Vals(vs) => StepV {
                        res: Ok(FlowV::Normal(ValueV::Array(vs))),
                        st: l1.st,
                    },
                    ListRes::Stop(flow) => StepV { res: Ok(flow), st: l1.st },
                    ListRes::Fail(err) => StepV { res: Err(err), st: l1.st },
                }
            },
            NodeV::Index(e, ie) => {
                let s1 = sp_eval(*e, st, f);
                match s1.res {
                    Ok(FlowV::Normal(av)) => {
                        let s2 = sp_eval(*ie, s1.st, f);
                        match s2.res {
                            Ok(FlowV::Normal(iv)) => match (av, iv) {
                                (ValueV::Array(es), ValueV::Number(ix)) => {
                                    let ri = if ix < 0 {
                                        0int
                                    } else {
                                        ix as int
                                    };
                                    if ri < es.len() {
                                        StepV { res: Ok(FlowV::Normal(es[ri])), st: s2.st }
                                    } else {
                                        StepV { res: Err(EvalError::IndexError), st: s2.st }
                                    }
                                },
                                _ => StepV { res: Err(EvalError::IndexError), st: s2.st },
                            },
                            _ => s2,
                        }
                    },
                    _ => s1,
                }
            },
        }
    }
}

/// Evaluates a block's statements in order, discarding intermediate
/// values; a `return` or an error stops the rest. A finished block
/// yields null.
pub open spec fn sp_block(ss: Seq<NodeV>, st: StateV, fuel: nat) -> StepV
    decreases fuel,
{
    if fuel == 0 {
        StepV { res: Err(EvalError::StepLimit), st }
    } else if ss.len() == 0 {
        StepV { res: Ok(FlowV::Normal(ValueV::Null)), st }
    } else {
        let f = (fuel - 1) as nat;
        let s1 = sp_eval(ss[0], st, f);
        match s1.res {
            Ok(FlowV::Normal(_)) => sp_block(ss.subrange(1, ss.len() as int), s1.st, f),
            _ => s1,
        }
    }
}

/// Evaluates expressions left to right into values. With `resolve`,
/// each value that is a name reference is resolved against the frame
/// as it stands right after that expression, the rule for binding
/// call arguments.
pub open spec fn sp_eval_list(ns: Seq<NodeV>, resolve: bool, st: StateV, fuel: nat) -> ListStepV
    decreases fuel,
{
    if fuel == 0 {
        ListStepV { res: ListRes::Fail(EvalError::StepLimit), st }
    } else if ns.len() == 0 {
        ListStepV { res: ListRes::Vals(Seq::empty()), st }
    } else {
        let f = (fuel - 1) as nat;
        let s1 = sp_eval(ns[0], st, f);
        match s1.res {
            Err(e) => ListStepV { res: ListRes::Fail(e), st: s1.st },
            Ok(FlowV::Return(v)) => ListStepV { res: ListRes::Stop(FlowV::Return(v)), st: s1.st },
            Ok(FlowV::Normal(v)) => {
                let v1 = if resolve {
                    resolve_ref(s1.st.frame, v)
                } else {
                    v
                };
                let rest = sp_eval_list(ns.subrange(1, ns.len() as int), resolve, s1.st, f);
                ListStepV {
                    res: match rest.res {
                        ListRes::Vals(vs) => ListRes::Vals(seq![v1] + vs),
                        other => other,
                    },
                    st: rest.st,
                }
            },
        }
    }
}

/// One `while` round: the condition must equal the boolean true to
/// take the body, any other value stops the loop. The loop yields the
/// last body value, null if the body never ran.
pub open spec fn sp_while(c: NodeV, b: NodeV, ret: ValueV, st: StateV, fuel: nat) -> StepV
    decreases fuel,
{
    if fuel == 0 {
        StepV { res: Err(EvalError::StepLimit), st }
    } else {
        let f = (fuel - 1) as nat;
        let s1 = sp_eval(c, st, f);
        match s1.res {
            Ok(FlowV::Normal(cv)) => if cv == ValueV::Bool(true) {
                let s2 = sp_eval(b, s1.st, f);
                match s2.res {
                    Ok(FlowV::Normal(bv)) => sp_while(c, b, bv, s2.st, f),
                    _ => s2,
                }
            } else {
                StepV { res: Ok(FlowV::Normal(ret)), st: s1.st }
            },
            _ => s1,
        }
    }
}

/// One `for` round: like `while`, but the step expression runs after
/// each body iteration and not after an iteration a `return` left.
pub open spec fn sp_for(
    c: NodeV,
    step: NodeV,
    b: NodeV,
    ret: ValueV,
    st: StateV,
    fuel: nat,
) -> StepV
    decreases fuel,
{
    if fuel == 0 {
        StepV { res: Err(EvalError::StepLimit), st }
    } else {
        let f = (fuel - 1) as nat;
        let s1 = sp_eval(c, st, f);
        match s1.res {
            Ok(FlowV::Normal(cv)) => if cv == ValueV::Bool(true) {
                let s2 = sp_eval(b, s1.st, f);
                match s2.res {
                    Ok(FlowV::Normal(bv)) => {
                        let s3 = sp_eval(step, s2.st, f);
                        match s3.res {
                            Ok(FlowV::Normal(_)) => sp_for(c, step, b, bv, s3.st, f),
                            _ => s3,
                        }
                    },
                    _ => s2,
                }
            } else {
                StepV { res: Ok(FlowV::Normal(ret)), st: s1.st }
            },
            _ => s1,
        }
    }
}

/// A call by name. `print` is the one built-in: it renders its single
/// argument (a name reference resolved first) and appends the text to
/// the output. Any other name must be a function on the heap, called
/// with exactly as many arguments as parameters, each argument
/// evaluated in the caller's frame; the body runs in a fresh frame,
/// and a `return` unwinds no further than this call.
pub open spec fn sp_call(x: Seq<char>, args: Seq<NodeV>, st: StateV, fuel: nat) -> StepV
    decreases fuel,
{
    if fuel == 0 {
        StepV { res: Err(EvalError::StepLimit), st }
    } else {
        let f = (fuel - 1) as nat;
        if x == "print"@ {
            if args.len() != 1 {
                StepV { res: Err(EvalError::ArityError), st }
            } else {
                let s1 = sp_eval(args[0], st, f);
                match s1.res {
                    Ok(FlowV::Normal(v)) => match sp_render(resolve_ref(s1.st.frame, v), f) {
                        Ok(t) => StepV {
                            res: Ok(FlowV::Normal(ValueV::Null)),
                            st: StateV { out: s1.st.out.push(t), ..s1.st },
                        },
                        Err(e) => StepV { res: Err(e), st: s1.st },
                    },
                    _ => s1,
                }
            }
        } else if !st.heap.contains_key(x) {
            StepV { res: Err(EvalError::UndefinedError), st }
        } else {
            match st.heap[x] {
                ValueV::Function(_, ps, body) => if args.len() != ps.len() {
                    StepV { res: Err(EvalError::ArityError), st }
                } else {
                    let l1 = sp_eval_list(args, true, st, f);
                    match l1.res {
                        ListRes::Fail(e) => StepV { res: Err(e), st: l1.st },
                        ListRes::Stop(flow) => StepV { res: Ok(flow), st: l1.st },
                        ListRes::Vals(vs) => {
                            let callee = StateV {
                                frame: bind_list(ps, vs, Map::empty()),
                                ..l1.st
                            };
                            let s2 = sp_eval(*body, callee, f);
                            let back = StateV { frame: l1.st.frame, ..s2.st };
                            match s2.res {
                                Ok(flow) => StepV {
                                    res: Ok(FlowV::Normal(flow.value())),
                                    st: back,
                                },
                                Err(e) => StepV { res: Err(e), st: back },
                            }
                        },
                    }
                },
                _ => StepV { res: Err(EvalError::TypeError), st },
            }
        }
    }
}

/// A method call. The receiver must be an object holding the method
/// as a function property; its first parameter is the implicit
/// receiver, so the caller supplies one argument fewer. The receiver
/// object is bound to `self` by value: the caller's own binding is
/// not written back.
pub open spec fn sp_method(
    recv: NodeV,
    m: Seq<char>,
    args: Seq<NodeV>,
    st: StateV,
    fuel: nat,
) -> StepV
    decreases fuel,
{
    if fuel == 0 {
        StepV { res: Err(EvalError::StepLimit), st }
    } else {
        let f = (fuel - 1) as nat;
        let s1 = sp_eval(recv, st, f);
        match s1.res {
            Ok(FlowV::Normal(rv)) => match rv {
                ValueV::Object(ps) => match props_get(ps, m) {
                    Some(ValueV::Function(_, mps, body)) => if args.len() as int != mps.len()
                        as int - 1 {
                        StepV { res: Err(EvalError::ArityError), st: s1.st }
                    } else {
                        let l1 = sp_eval_list(args, true, s1.st, f);
                        match l1.res {
                            ListRes::Fail(e) => StepV { res: Err(e), st: l1.st },
                            ListRes::Stop(flow) => StepV { res: Ok(flow), st: l1.st },
                            ListRes::Vals(vs) => {
                                let callee = StateV {
                                    frame: bind_list(
                                        mps.subrange(1, mps.len() as int),
                                        vs,
                                        Map::empty().insert("self"@, rv),
                                    ),
                                    ..l1.st
                                };
                                let s2 = sp_eval(*body, callee, f);
                                let back = StateV { frame: l1.st.frame, ..s2.st };
                                match s2.res {
                                    Ok(flow) => StepV {
                                        res: Ok(FlowV::Normal(flow.value())),
                                        st: back,
                                    },
                                    Err(e) => StepV { res: Err(e), st: back },
                                }
                            },
                        }
                    },
                    Some(_) => StepV { res: Err(EvalError::TypeError), st: s1.st },
                    None => StepV { res: Err(EvalError::PropertyError), st: s1.st },
                },
                _ => StepV { res: Err(EvalError::TypeError), st: s1.st },
            },
            _ => s1,
        }
    }
}

/// Construction. The name must be a class template on the heap. With
/// an `~init` function the constructor runs in a fresh frame where
/// `self` is a copy of the template, and the final `self` of that
/// frame is the instance; without one, the instance is a copy of the
/// template itself. The constructor's own result value is discarded.
pub open spec fn sp_new(x: Seq<char>, args: Seq<NodeV>, st: StateV, fuel: nat) -> StepV
    decreases fuel,
{
    if fuel == 0 {
        StepV { res: Err(EvalError::StepLimit), st }
    } else {
        let f = (fuel - 1) as nat;
        if !st.heap.contains_key(x) {
            StepV { res: Err(EvalError::UndefinedError), st }
        } else {
            match st.heap[x] {
                ValueV::Object(ps) => match props_get(ps, "~init"@) {
                    Some(ValueV::Function(_, ips, body)) => if args.len() as int != ips.len()
                        as int - 1 {
                        StepV { res: Err(EvalError::ArityError), st }
                    } else {
                        let l1 = sp_eval_list(args, true, st, f);
                        match l1.res {
                            ListRes::Fail(e) => StepV { res: Err(e), st: l1.st },
                            ListRes::Stop(flow) => StepV { res: Ok(flow), st: l1.st },
                            ListRes::Vals(vs) => {
                                let callee = StateV {
                                    frame: bind_list(
                                        ips.subrange(1, ips.len() as int),
                                        vs,
                                        Map::empty().insert("self"@, ValueV::Object(ps)),
                                    ),
                                    ..l1.st
                                };
                                let s2 = sp_eval(*body, callee, f);
                                let back = StateV { frame: l1.st.frame, ..s2.st };
                                match s2.res {
                                    Ok(_) => StepV {
                                        res: Ok(
                                            FlowV::Normal(frame_read(s2.st, "self"@)),
                                        ),
                                        st: back,
                                    },
                                    Err(e) => StepV { res: Err(e), st: back },
                                }
                            },
                        }
                    },
                    _ => StepV { res: Ok(FlowV::Normal(ValueV::Object(ps))), st },
                },
                _ => StepV { res: Err(EvalError::TypeError), st },
            }
        }
    }
}

/// Renders a value as display text. Numbers and strings render
/// literally, booleans as `true`/`false`, null as `null`, a name
/// reference as its name, a function as its name and parameter list,
/// an array as its bracketed elements. An object renders through its
/// `~display` method when it has one — evaluated with `self` bound to
/// the object in an otherwise empty world, rendering the value the
/// method yields — and as its raw property map otherwise.
pub open spec fn sp_render(v: ValueV, fuel: nat) -> Result<Seq<char>, EvalError>
    decreases fuel,
{
    if fuel == 0 {
        Err(EvalError::StepLimit)
    } else {
        let f = (fuel - 1) as nat;
        match v {
            ValueV::Null => Ok("null"@),
            ValueV::Number(n) => Ok(dec_int(n as int)),
            ValueV::Str(s) => Ok(s),
            ValueV::Bool(b) => Ok(if b {
                "true"@
            } else {
                "false"@
            }),
            ValueV::NameRef(n) => Ok(n),
            ValueV::Function(n, ps, _) => Ok(n + "("@ + join_names(ps) + ")"@),
            ValueV::Array(es) => match sp_render_items(es, f) {
                Ok(t) => Ok("["@ + t + "]"@),
                Err(e) => Err(e),
            },
            ValueV::Object(ps) => match props_get(ps, "~display"@) {
                Some(ValueV::Function(_, _, body)) => {
                    let st0 = StateV {
                        frame: Map::empty().insert("self"@, v),
                        heap: Map::empty(),
                        out: Seq::empty(),
                    };
                    let s1 = sp_eval(*body, st0, f);
                    match s1.res {
                        Ok(flow) => sp_render(flow.value(), f),
                        Err(e) => Err(e),
                    }
                },
                _ => match sp_render_props(ps, f) {
                    Ok(t) => Ok("{"@ + t + "}"@),
                    Err(e) => Err(e),
                },
            },
        }
    }
}

/// Renders one element of an array or property map: strings are
/// quoted, everything else renders as usual.
pub open spec fn sp_render_item(v: ValueV, fuel: nat) -> Result<Seq<char>, EvalError>
    decreases fuel,
{
    if fuel == 0 {
        Err(EvalError::StepLimit)
    } else {
        match v {
            ValueV::Str(s) => Ok("\""@ + s + "\""@),
            _ => sp_render(v, (fuel - 1) as nat),
        }
    }
}

/// Renders array elements, comma-separated.
pub open spec fn sp_render_items(es: Seq<ValueV>, fuel: nat) -> Result<Seq<char>, EvalError>
    decreases fuel,
{
    if fuel == 0 {
        Err(EvalError::StepLimit)
    } else if es.len() == 0 {
        Ok(Seq::empty())
    } else {
        let f = (fuel - 1) as nat;
        match sp_render_item(es[0], f) {
            Ok(first) => if es.len() == 1 {
                Ok(first)
            } else {
                match sp_render_items(es.subrange(1, es.len() as int), f) {
                    Ok(rest) => Ok(first + ", "@ + rest),
                    Err(e) => Err(e),
                }
            },
            Err(e) => Err(e),
        }
    }
}

/// Renders a raw property map's entries, comma-separated
/// `name: value` pairs.
pub open spec fn sp_render_props(ps: Seq<(Seq<char>, ValueV)>, fuel: nat) -> Result<
    Seq<char>,
    EvalError,
>
    decreases fuel,
{
    if fuel == 0 {
        Err(EvalError::StepLimit)
    } else if ps.len() == 0 {
        Ok(Seq::empty())
    } else {
        let f = (fuel - 1) as nat;
        match sp_render_item(ps[0].1, f) {
            Ok(first) => if ps.len() == 1 {
                Ok(ps[0].0 + ": "@ + first)
            } else {
                match sp_render_props(ps.subrange(1, ps.len() as int), f) {
                    Ok(rest) => Ok(ps[0].0 + ": "@ + first + ", "@ + rest),
                    Err(e) => Err(e),
                }
            },
            Err(e) => Err(e),
        }
    }
}

/// A whole program run: the top-level tree executes in a fresh world
/// (populating the heap with its definitions and running its
/// top-level statements), then the function named `main` is called
/// with the one supplied argument expression. The run's result is
/// what `main` yields, or the first error; the output lines are
/// everything printed on the way.
pub open spec fn sp_run(tree: NodeV, arg: NodeV, fuel: nat) -> StepV {
    let st0 = StateV { frame: Map::empty(), heap: Map::empty(), out: Seq::empty() };
    let s1 = sp_eval(tree, st0, fuel);
    match s1.res {
        Ok(_) => sp_call("main"@, seq![arg], s1.st, fuel),
        Err(e) => s1,
    }
}

} // verus!
