//! The executable evaluator, proved equal to the specification-level
//! interpreter in `semantics`: every function here returns exactly
//! what its specification twin prescribes, for the same step budget.

use vstd::prelude::*;
use vstd::pervasive::VecAdditionalExecFns;
use crate::ast::ArithOp;
use crate::ast::CmpOp;
use crate::ast::Node;
use crate::ast::NodeV;
use crate::ast::nodes_view;
use crate::ast::params_view;
use crate::bindings::Bindings;
use crate::errors::EvalError;
use crate::numfmt::fmt_i64;
use crate::semantics::FlowV;
use crate::semantics::ListRes;
use crate::semantics::ListStepV;
use crate::semantics::StateV;
use crate::semantics::StepV;
use crate::semantics::arith_num;
use crate::semantics::bind_list;
use crate::semantics::class_methods;
use crate::semantics::frame_read;
use crate::semantics::join_names;
use crate::semantics::num_coerce;
use crate::semantics::resolve_ref;
use crate::semantics::set_index_chain;
use crate::semantics::sp_block;
use crate::semantics::sp_call;
use crate::semantics::sp_eval;
use crate::semantics::sp_eval_list;
use crate::semantics::sp_for;
use crate::semantics::sp_method;
use crate::semantics::sp_new;
use crate::semantics::sp_render;
use crate::semantics::sp_render_item;
use crate::semantics::sp_render_items;
use crate::semantics::sp_render_props;
use crate::semantics::sp_run;
use crate::semantics::sp_while;
use crate::semantics::to_indices;
use crate::semantics::trunc_div;
use crate::value::Cmp;
use crate::value::Value;
use crate::value::ValueV;
use crate::value::obj_view;
use crate::value::props_get;
use crate::value::vals_view;
use crate::valops::clone_params;
use crate::valops::deep_clone;
use crate::valops::func_value;
use crate::valops::object_get;
use crate::valops::object_set;
use crate::valops::str_eq;
use crate::valops::value_cmp;
use crate::valops::value_eq;

verus! {

broadcast use vstd::group_vstd_default, crate::ast::group_node_views,
    crate::value::group_value_views;

/// How an evaluation hands its value back: normally, or unwinding
/// from a `return`.
pub enum Flow {
    Normal(Value),
    Return(Value),
}

impl View for Flow {
    type V = FlowV;

    open spec fn view(&self) -> FlowV {
        match self {
            Flow::Normal(v) => FlowV::Normal(v@),
            Flow::Return(v) => FlowV::Return(v@),
        }
    }
}

/// The mathematical value of an evaluation result.
pub open spec fn res_view(r: Result<Flow, EvalError>) -> Result<FlowV, EvalError> {
    match r {
        Ok(f) => Ok(f@),
        Err(e) => Err(e),
    }
}

/// The views of printed lines, elementwise.
pub open spec fn lines_view(s: Seq<String>) -> Seq<Seq<char>> {
    Seq::new(s.len(), |i: int| if 0 <= i < s.len() { s[i]@ } else { Seq::empty() })
}

/// The views of an index list, elementwise.
pub open spec fn ints_view(s: Seq<i64>) -> Seq<int> {
    Seq::new(s.len(), |i: int| if 0 <= i < s.len() { s[i] as int } else { 0 })
}

/// The evaluator: the heap of functions and class templates, and the
/// lines printed so far.
pub struct Interp {
    pub heap: Bindings,
    pub out: Vec<String>,
}

/// The specification state an evaluator and a frame stand at.
pub open spec fn interp_st(i: Interp, frame: Map<Seq<char>, ValueV>) -> StateV {
    StateV { frame, heap: i.heap@, out: lines_view(i.out@) }
}

/// Arithmetic on two numbers, as `arith_num` prescribes.
fn arith_num_ex(op: ArithOp, a: i64, b: i64) -> (r: i64)
    ensures
        r == arith_num(op, a, b),
{
    match op {
        ArithOp::Add => {
            let r = a.wrapping_add(b);
            proof {
                assert(r == vstd::wrapping::i64_specs::wrapping_add(a, b));
                assert(arith_num(op, a, b) == vstd::wrapping::i64_specs::wrapping_add(a, b));
            }
            r
        },
        ArithOp::Sub => a.wrapping_sub(b),
        ArithOp::Mul => a.wrapping_mul(b),
        ArithOp::Div => {
            if b == 0 {
                0
            } else if a == i64::MIN && b == -1 {
                i64::MIN
            } else {
                proof {
                    lemma_trunc_div_in_range(a as int, b as int);
                }
                match a.checked_div(b) {
                    Some(q) => {
                        proof {
                            assert(trunc_div(a as int, b as int) == q);
                        }
                        q
                    },
                    None => {
                        proof {
                            assert(false);
                        }
                        0
                    },
                }
            }
        },
    }
}

/// Truncated division of any two 64-bit values other than the one
/// overflowing pair stays within the 64-bit range.
proof fn lemma_trunc_div_in_range(x: int, d: int)
    requires
        d != 0,
        -0x8000000000000000 <= x <= 0x7fffffffffffffff,
        !(x == -0x8000000000000000 && d == -1),
    ensures
        -0x8000000000000000 <= trunc_div(x, d) <= 0x7fffffffffffffff,
{
    if x == 0 {
    } else if x > 0 && d > 0 {
        vstd::arithmetic::div_mod::lemma_div_pos_is_pos(x, d);
        vstd::arithmetic::div_mod::lemma_div_nonincreasing(x, d);
    } else if x < 0 && d < 0 {
        let p = x * -1;
        let q = d * -1;
        vstd::arithmetic::div_mod::lemma_div_pos_is_pos(p, q);
        vstd::arithmetic::div_mod::lemma_div_nonincreasing(p, q);
        if q > 1 {
            vstd::arithmetic::div_mod::lemma_div_is_ordered_by_denominator(p, 2, q);
            vstd::arithmetic::div_mod::lemma_div_is_ordered(p, 0x8000000000000000, 2);
        }
    } else if x < 0 {
        let p = x * -1;
        vstd::arithmetic::div_mod::lemma_div_pos_is_pos(p, d);
        vstd::arithmetic::div_mod::lemma_div_nonincreasing(p, d);
    } else {
        let q = d * -1;
        vstd::arithmetic::div_mod::lemma_div_pos_is_pos(x, q);
        vstd::arithmetic::div_mod::lemma_div_nonincreasing(x, q);
    }
}

/// The numeric value an operand contributes to arithmetic, as
/// `num_coerce` prescribes.
fn num_coerce_ex(frame: &Bindings, v: &Value) -> (r: i64)
    ensures
        r == num_coerce(frame@, v@),
{
    match v {
        Value::Number(f) => *f,
        Value::NameRef(n) => match frame.read(n.as_str()) {
            Value::Number(f) => f,
            _ => 0,
        },
        _ => 0,
    }
}

/// The index chain as machine indices, if every index value is a
/// non-negative number.
fn to_indices_ex(ivs: &Vec<Value>, k: usize) -> (r: Option<Vec<i64>>)
    requires
        k <= ivs@.len(),
    ensures
        match r {
            Some(v) => to_indices(vals_view(ivs@).subrange(k as int, ivs@.len() as int))
                == Some(ints_view(v@)),
            None => to_indices(vals_view(ivs@).subrange(k as int, ivs@.len() as int)) is None,
        },
    decreases ivs@.len() - k,
{
    let ghost sub = vals_view(ivs@).subrange(k as int, ivs@.len() as int);
    proof {
        assert(to_indices(sub) == if sub.len() == 0 {
            Some(Seq::<int>::empty())
        } else {
            match sub[0] {
                ValueV::Number(f) => if f >= 0 {
                    match to_indices(sub.subrange(1, sub.len() as int)) {
                        Some(rest) => Some(seq![f as int] + rest),
                        None => None,
                    }
                } else {
                    None
                },
                _ => None,
            }
        });
    }
    if k == ivs.len() {
        let r: Vec<i64> = Vec::new();
        proof {
            assert(ints_view(r@) =~= Seq::<int>::empty());
        }
        Some(r)
    } else {
        proof {
            assert(sub[0] == ivs@[k as int]@);
            assert(sub.subrange(1, sub.len() as int) =~= vals_view(ivs@).subrange(
                k + 1,
                ivs@.len() as int,
            ));
        }
        match &ivs[k] {
            Value::Number(f) => {
                if *f >= 0 {
                    match to_indices_ex(ivs, k + 1) {
                        Some(rest) => {
                            let mut v: Vec<i64> = Vec::new();
                            v.push(*f);
                            let mut rest = rest;
                            let ghost restv = ints_view(rest@);
                            let mut j: usize = 0;
                            while j < rest.len()
                                invariant
                                    j <= rest@.len(),
                                    v@.len() == 1 + j,
                                    v@[0] == f,
                                    forall|l: int| 0 <= l < j ==> v@[l + 1] == rest@[l],
                                    ints_view(rest@) == restv,
                                decreases rest@.len() - j,
                            {
                                v.push(rest[j]);
                                j = j + 1;
                            }
                            proof {
                                assert(ints_view(v@) =~= seq![*f as int] + restv);
                            }
                            Some(v)
                        },
                        None => None,
                    }
                } else {
                    None
                }
            },
            _ => None,
        }
    }
}

/// `cur` with the slot reached by the index chain from position `k`
/// overwritten, as `set_index_chain` prescribes.
fn set_chain(cur: Value, idxs: &Vec<i64>, k: usize, v: Value) -> (r: Result<Value, EvalError>)
    requires
        k <= idxs@.len(),
    ensures
        ({
            let spec_r = set_index_chain(
                cur@,
                ints_view(idxs@).subrange(k as int, idxs@.len() as int),
                v@,
            );
            match r {
                Ok(c) => spec_r == Ok::<ValueV, EvalError>(c@),
                Err(e) => spec_r == Err::<ValueV, EvalError>(e),
            }
        }),
    decreases idxs@.len() - k,
{
    let ghost sub = ints_view(idxs@).subrange(k as int, idxs@.len() as int);
    proof {
        assert(set_index_chain(cur@, sub, v@) == if sub.len() == 0 {
            Ok::<ValueV, EvalError>(v@)
        } else {
            match cur@ {
                ValueV::Array(es) => {
                    let i = sub[0];
                    if 0 <= i < es.len() {
                        if sub.len() == 1 {
                            Ok(ValueV::Array(es.update(i, v@)))
                        } else {
                            match set_index_chain(es[i], sub.subrange(1, sub.len() as int), v@) {
                                Ok(e2) => Ok(ValueV::Array(es.update(i, e2))),
                                Err(e) => Err(e),
                            }
                        }
                    } else {
                        Err(EvalError::IndexError)
                    }
                },
                _ => Err(EvalError::IndexError),
            }
        });
    }
    if k == idxs.len() {
        return Ok(v);
    }
    match cur {
        Value::Array(es) => {
            let mut es = es;
            let i = idxs[k];
            proof {
                assert(sub[0] == i as int);
            }
            if i >= 0 && (i as u64) < (es.len() as u64) {
                let iu = i as usize;
                if k + 1 == idxs.len() {
                    proof {
                        let ghost old_es = vals_view(es@);
                        assert(sub.len() == 1);
                    }
                    let ghost before = vals_view(es@);
                    es.set(iu, v);
                    proof {
                        assert(vals_view(es@) =~= before.update(i as int, v@));
                    }
                    Ok(Value::Array(es))
                } else {
                    let ghost orig = vals_view(es@);
                    let mut elem = Value::Null;
                    es.set_and_swap(iu, &mut elem);
                    proof {
                        assert(elem@ == orig[i as int]);
                        assert(sub.subrange(1, sub.len() as int) =~= ints_view(idxs@).subrange(
                            k + 1,
                            idxs@.len() as int,
                        ));
                    }
                    match set_chain(elem, idxs, k + 1, v) {
                        Ok(e2) => {
                            es.set(iu, e2);
                            proof {
                                assert(vals_view(es@) =~= orig.update(i as int, e2@));
                            }
                            Ok(Value::Array(es))
                        },
                        Err(e) => Err(e),
                    }
                }
            } else {
                Err(EvalError::IndexError)
            }
        },
        _ => Err(EvalError::IndexError),
    }
}

/// A name reference resolved against the frame, as `resolve_ref`
/// prescribes.
fn resolve_ex(frame: &Bindings, v: Value) -> (r: Value)
    ensures
        r@ == resolve_ref(frame@, v@),
{
    match v {
        Value::NameRef(n) => frame.read(n.as_str()),
        other => other,
    }
}

/// Parameter names joined with commas, as `join_names` prescribes.
fn render_params(ps: &Vec<String>, k: usize) -> (r: String)
    requires
        k <= ps@.len(),
    ensures
        r@ == join_names(params_view(ps@).subrange(k as int, ps@.len() as int)),
    decreases ps@.len() - k,
{
    let ghost sub = params_view(ps@).subrange(k as int, ps@.len() as int);
    proof {
        assert(join_names(sub) == if sub.len() == 0 {
            Seq::<char>::empty()
        } else if sub.len() == 1 {
            sub[0]
        } else {
            sub[0] + ", "@ + join_names(sub.subrange(1, sub.len() as int))
        });
    }
    if k == ps.len() {
        let r = String::new();
        r
    } else if k + 1 == ps.len() {
        ps[k].clone()
    } else {
        proof {
            assert(sub.subrange(1, sub.len() as int) =~= params_view(ps@).subrange(
                k + 1,
                ps@.len() as int,
            ));
        }
        let mut r = ps[k].clone();
        r.append(", ");
        let rest = render_params(ps, k + 1);
        r.append(rest.as_str());
        r
    }
}

/// Renders one element of an array or property map, as
/// `sp_render_item` prescribes.
fn render_item(v: &Value, fuel: u64) -> (r: Result<String, EvalError>)
    ensures
        ({
            let sr = sp_render_item(v@, fuel as nat);
            match r {
                Ok(s) => sr == Ok::<Seq<char>, EvalError>(s@),
                Err(e) => sr == Err::<Seq<char>, EvalError>(e),
            }
        }),
    decreases fuel,
{
    proof {
        assert(sp_render_item(v@, fuel as nat) == if fuel == 0 {
            Err::<Seq<char>, EvalError>(EvalError::StepLimit)
        } else {
            match v@ {
                ValueV::Str(s) => Ok("\""@ + s + "\""@),
                _ => sp_render(v@, (fuel - 1) as nat),
            }
        });
    }
    if fuel == 0 {
        return Err(EvalError::StepLimit);
    }
    match v {
        Value::Str(s) => {
            let mut q = String::from_str("\"");
            q.append(s.as_str());
            q.append("\"");
            Ok(q)
        },
        _ => render_value(v, fuel - 1),
    }
}

/// Renders array elements from position `k` on, as `sp_render_items`
/// prescribes.
fn render_items(es: &Vec<Value>, k: usize, fuel: u64) -> (r: Result<String, EvalError>)
    requires
        k <= es@.len(),
    ensures
        ({
            let sr = sp_render_items(
                vals_view(es@).subrange(k as int, es@.len() as int),
                fuel as nat,
            );
            match r {
                Ok(s) => sr == Ok::<Seq<char>, EvalError>(s@),
                Err(e) => sr == Err::<Seq<char>, EvalError>(e),
            }
        }),
    decreases fuel,
{
    let ghost sub = vals_view(es@).subrange(k as int, es@.len() as int);
    proof {
        assert(sp_render_items(sub, fuel as nat) == if fuel == 0 {
            Err::<Seq<char>, EvalError>(EvalError::StepLimit)
        } else if sub.len() == 0 {
            Ok(Seq::<char>::empty())
        } else {
            let f = (fuel - 1) as nat;
            match sp_render_item(sub[0], f) {
                Ok(first) => if sub.len() == 1 {
                    Ok(first)
                } else {
                    match sp_render_items(sub.subrange(1, sub.len() as int), f) {
                        Ok(rest) => Ok(first + ", "@ + rest),
                        Err(e) => Err(e),
                    }
                },
                Err(e) => Err(e),
            }
        });
    }
    if fuel == 0 {
        return Err(EvalError::StepLimit);
    }
    if k == es.len() {
        return Ok(String::new());
    }
    proof {
        assert(sub[0] == es@[k as int]@);
        assert(sub.subrange(1, sub.len() as int) =~= vals_view(es@).subrange(
            k + 1,
            es@.len() as int,
        ));
    }
    match render_item(&es[k], fuel - 1) {
        Ok(first) => {
            if k + 1 == es.len() {
                Ok(first)
            } else {
                match render_items(es, k + 1, fuel - 1) {
                    Ok(rest) => {
                        let mut out = first;
                        out.append(", ");
                        out.append(rest.as_str());
                        Ok(out)
                    },
                    Err(e) => Err(e),
                }
            }
        },
        Err(e) => Err(e),
    }
}

/// Renders property-map entries from position `k` on, as
/// `sp_render_props` prescribes.
fn render_props(ps: &Vec<(String, Value)>, k: usize, fuel: u64) -> (r: Result<String, EvalError>)
    requires
        k <= ps@.len(),
    ensures
        ({
            let sr = sp_render_props(
                obj_view(ps@).subrange(k as int, ps@.len() as int),
                fuel as nat,
            );
            match r {
                Ok(s) => sr == Ok::<Seq<char>, EvalError>(s@),
                Err(e) => sr == Err::<Seq<char>, EvalError>(e),
            }
        }),
    decreases fuel,
{
    let ghost sub = obj_view(ps@).subrange(k as int, ps@.len() as int);
    proof {
        assert(sp_render_props(sub, fuel as nat) == if fuel == 0 {
            Err::<Seq<char>, EvalError>(EvalError::StepLimit)
        } else if sub.len() == 0 {
            Ok(Seq::<char>::empty())
        } else {
            let f = (fuel - 1) as nat;
            match sp_render_item(sub[0].1, f) {
                Ok(first) => if sub.len() == 1 {
                    Ok(sub[0].0 + ": "@ + first)
                } else {
                    match sp_render_props(sub.subrange(1, sub.len() as int), f) {
                        Ok(rest) => Ok(sub[0].0 + ": "@ + first + ", "@ + rest),
                        Err(e) => Err(e),
                    }
                },
                Err(e) => Err(e),
            }
        });
    }
    if fuel == 0 {
        return Err(EvalError::StepLimit);
    }
    if k == ps.len() {
        return Ok(String::new());
    }
    proof {
        assert(sub[0] == (ps@[k as int].0@, ps@[k as int].1@));
        assert(sub.subrange(1, sub.len() as int) =~= obj_view(ps@).subrange(
            k + 1,
            ps@.len() as int,
        ));
    }
    match render_item(&ps[k].1, fuel - 1) {
        Ok(first) => {
            let mut out = ps[k].0.clone();
            out.append(": ");
            out.append(first.as_str());
            if k + 1 == ps.len() {
                Ok(out)
            } else {
                match render_props(ps, k + 1, fuel - 1) {
                    Ok(rest) => {
                        out.append(", ");
                        out.append(rest.as_str());
                        Ok(out)
                    },
                    Err(e) => Err(e),
                }
            }
        },
        Err(e) => Err(e),
    }
}

/// Renders a value as display text, as `sp_render` prescribes.
pub fn render_value(v: &Value, fuel: u64) -> (r: Result<String, EvalError>)
    ensures
        ({
            let sr = sp_render(v@, fuel as nat);
            match r {
                Ok(s) => sr == Ok::<Seq<char>, EvalError>(s@),
                Err(e) => sr == Err::<Seq<char>, EvalError>(e),
            }
        }),
    decreases fuel,
{
    if fuel == 0 {
        proof {
            assert(sp_render(v@, 0) == Err::<Seq<char>, EvalError>(EvalError::StepLimit));
        }
        return Err(EvalError::StepLimit);
    }
    let ghost f = (fuel - 1) as nat;
    match v {
        Value::Null => {
            proof {
                assert(sp_render(v@, fuel as nat) == Ok::<Seq<char>, EvalError>("null"@));
            }
            Ok(String::from_str("null"))
        },
        Value::Number(n) => {
            proof {
                assert(sp_render(v@, fuel as nat) == Ok::<Seq<char>, EvalError>(
                    crate::numfmt::dec_int(*n as int),
                ));
            }
            Ok(fmt_i64(*n))
        },
        Value::Str(s) => {
            proof {
                assert(sp_render(v@, fuel as nat) == Ok::<Seq<char>, EvalError>(s@));
            }
            Ok(s.clone())
        },
        Value::Bool(b) => {
            proof {
                assert(sp_render(v@, fuel as nat) == Ok::<Seq<char>, EvalError>(
                    if *b {
                        "true"@
                    } else {
                        "false"@
                    },
                ));
            }
            Ok(if *b {
                String::from_str("true")
            } else {
                String::from_str("false")
            })
        },
        Value::NameRef(n) => {
            proof {
                assert(sp_render(v@, fuel as nat) == Ok::<Seq<char>, EvalError>(n@));
            }
            Ok(n.clone())
        },
        Value::Function(n, ps, _) => {
            proof {
                assert(sp_render(v@, fuel as nat) == Ok::<Seq<char>, EvalError>(
                    n@ + "("@ + join_names(params_view(ps@)) + ")"@,
                ));
                assert(params_view(ps@).subrange(0, ps@.len() as int) =~= params_view(ps@));
            }
            let mut out = n.clone();
            out.append("(");
            let body = render_params(ps, 0);
            out.append(body.as_str());
            out.append(")");
            Ok(out)
        },
        Value::Array(es) => {
            proof {
                assert(sp_render(v@, fuel as nat) == (match sp_render_items(vals_view(es@), f) {
                    Ok(t) => Ok::<Seq<char>, EvalError>("["@ + t + "]"@),
                    Err(e) => Err(e),
                }));
                assert(vals_view(es@).subrange(0, es@.len() as int) =~= vals_view(es@));
            }
            match render_items(es, 0, fuel - 1) {
                Ok(t) => {
                    let mut out = String::from_str("[");
                    out.append(t.as_str());
                    out.append("]");
                    Ok(out)
                },
                Err(e) => Err(e),
            }
        },
        Value::Object(ps) => {
            match object_get(ps, "~display") {
                Some(Value::Function(_, _, body)) => {
                    proof {
                        assert(sp_render(v@, fuel as nat) == ({
                            let st0 = StateV {
                                frame: Map::empty().insert("self"@, v@),
                                heap: Map::empty(),
                                out: Seq::empty(),
                            };
                            let s1 = sp_eval((*body)@, st0, f);
                            match s1.res {
                                Ok(flow) => sp_render(flow.value(), f),
                                Err(e) => Err::<Seq<char>, EvalError>(e),
                            }
                        }));
                    }
                    let mut it = Interp { heap: Bindings::new(), out: Vec::new() };
                    let mut fr = Bindings::new();
                    fr.set(String::from_str("self"), deep_clone(v));
                    proof {
                        assert(lines_view(it.out@) =~= Seq::<Seq<char>>::empty());
                        assert(interp_st(it, fr@) == StateV {
                            frame: Map::empty().insert("self"@, v@),
                            heap: Map::empty(),
                            out: Seq::empty(),
                        });
                    }
                    let res = it.eval(&body, &mut fr, fuel - 1);
                    match res {
                        Ok(flow) => {
                            let fv = match flow {
                                Flow::Normal(x) => x,
                                Flow::Return(x) => x,
                            };
                            render_value(&fv, fuel - 1)
                        },
                        Err(e) => Err(e),
                    }
                },
                other => {
                    proof {
                        assert(!(props_get(obj_view(ps@), "~display"@) matches Some(
                            ValueV::Function(_, _, _),
                        )));
                        assert(sp_render(v@, fuel as nat) == (match sp_render_props(
                            obj_view(ps@),
                            f,
                        ) {
                            Ok(t) => Ok::<Seq<char>, EvalError>("{"@ + t + "}"@),
                            Err(e) => Err(e),
                        }));
                        assert(obj_view(ps@).subrange(0, ps@.len() as int) =~= obj_view(ps@));
                    }
                    match render_props(ps, 0, fuel - 1) {
                        Ok(t) => {
                            let mut out = String::from_str("{");
                            out.append(t.as_str());
                            out.append("}");
                            Ok(out)
                        },
                        Err(e) => Err(e),
                    }
                },
            }
        },
    }
}

/// The outcome of evaluating a list of expressions.
pub enum ListOut {
    Vals(Vec<Value>),
    Stop(Flow),
    Fail(EvalError),
}

/// The mathematical value of a list outcome.
pub open spec fn list_out_view(l: ListOut) -> ListRes {
    match l {
        ListOut::Vals(vs) => ListRes::Vals(vals_view(vs@)),
        ListOut::Stop(f) => ListRes::Stop(f@),
        ListOut::Fail(e) => ListRes::Fail(e),
    }
}

/// The property map of a class body from position `k` on, grown from
/// `acc`, as `class_methods` prescribes.
fn class_props_ex(ds: &Vec<Node>, k: usize, acc: Vec<(String, Value)>) -> (r: Option<
    Vec<(String, Value)>,
>)
    requires
        k <= ds@.len(),
    ensures
        ({
            let cm = class_methods(
                nodes_view(ds@).subrange(k as int, ds@.len() as int),
                obj_view(acc@),
            );
            match r {
                Some(v) => cm == Some(obj_view(v@)),
                None => cm is None,
            }
        }),
    decreases ds@.len() - k,
{
    let ghost sub = nodes_view(ds@).subrange(k as int, ds@.len() as int);
    proof {
        assert(class_methods(sub, obj_view(acc@)) == if sub.len() == 0 {
            Some(obj_view(acc@))
        } else {
            match sub[0] {
                NodeV::FuncDef(n, ps, b) => class_methods(
                    sub.subrange(1, sub.len() as int),
                    crate::value::props_set(obj_view(acc@), n, ValueV::Function(n, ps, b)),
                ),
                _ => None,
            }
        });
    }
    if k == ds.len() {
        return Some(acc);
    }
    proof {
        assert(sub[0] == ds@[k as int]@);
        assert(sub.subrange(1, sub.len() as int) =~= nodes_view(ds@).subrange(
            k + 1,
            ds@.len() as int,
        ));
    }
    match &ds[k] {
        Node::FuncDef(n, ps, b) => {
            proof {
                assert(ds@[k as int]@ == NodeV::FuncDef(n@, params_view(ps@), Box::new((**b)@)));
            }
            let fv = func_value(n, ps, b);
            let acc2 = object_set(acc, n.as_str(), fv);
            class_props_ex(ds, k + 1, acc2)
        },
        _ => None,
    }
}

/// Binds parameter names to argument values pairwise, as `bind_list`
/// prescribes.
fn bind_params(names: &Vec<String>, noff: usize, vals: &Vec<Value>, voff: usize, f: &mut Bindings)
    requires
        noff <= names@.len(),
        voff <= vals@.len(),
    ensures
        final(f)@ == bind_list(
            params_view(names@).subrange(noff as int, names@.len() as int),
            vals_view(vals@).subrange(voff as int, vals@.len() as int),
            old(f)@,
        ),
    decreases names@.len() - noff,
{
    let ghost ns = params_view(names@).subrange(noff as int, names@.len() as int);
    let ghost vs = vals_view(vals@).subrange(voff as int, vals@.len() as int);
    proof {
        assert(bind_list(ns, vs, old(f)@) == if ns.len() == 0 || vs.len() == 0 {
            old(f)@
        } else {
            bind_list(
                ns.subrange(1, ns.len() as int),
                vs.subrange(1, vs.len() as int),
                old(f)@.insert(ns[0], vs[0]),
            )
        });
    }
    if noff == names.len() || voff == vals.len() {
        return ;
    }
    proof {
        assert(ns[0] == names@[noff as int]@);
        assert(vs[0] == vals@[voff as int]@);
        assert(ns.subrange(1, ns.len() as int) =~= params_view(names@).subrange(
            noff + 1,
            names@.len() as int,
        ));
        assert(vs.subrange(1, vs.len() as int) =~= vals_view(vals@).subrange(
            voff + 1,
            vals@.len() as int,
        ));
    }
    f.set(names[noff].clone(), deep_clone(&vals[voff]));
    bind_params(names, noff + 1, vals, voff + 1, f);
}

impl Interp {
    /// A fresh evaluator: empty heap, nothing printed.
    pub fn new() -> (r: Interp)
        ensures
            r.heap@ == Map::<Seq<char>, ValueV>::empty(),
            lines_view(r.out@) == Seq::<Seq<char>>::empty(),
    {
        let r = Interp { heap: Bindings::new(), out: Vec::new() };
        proof {
            assert(lines_view(r.out@) =~= Seq::<Seq<char>>::empty());
        }
        r
    }

    /// Evaluates one node, as `sp_eval` prescribes.
    #[verifier::rlimit(100)]
    pub fn eval(&mut self, n: &Node, frame: &mut Bindings, fuel: u64) -> (r: Result<
        Flow,
        EvalError,
    >)
        ensures
            ({
                let step = sp_eval(n@, interp_st(*old(self), old(frame)@), fuel as nat);
                &&& res_view(r) == step.res
                &&& interp_st(*final(self), final(frame)@) == step.st
            }),
        decreases fuel, 5int,
    {
        let ghost st0 = interp_st(*self, frame@);
        if fuel == 0 {
            proof {
                assert(sp_eval(n@, st0, 0) == StepV { res: Err(EvalError::StepLimit), st: st0 });
            }
            return Err(EvalError::StepLimit);
        }
        let ghost f = (fuel - 1) as nat;
        match n {
            Node::Block(ss) => {
                proof {
                    assert(n@ == NodeV::Block(nodes_view(ss@)));
                    assert(sp_eval(n@, st0, fuel as nat) == sp_block(nodes_view(ss@), st0, f));
                    assert(nodes_view(ss@).subrange(0, ss@.len() as int) =~= nodes_view(ss@));
                }
                self.eval_block(ss, 0, frame, fuel - 1)
            },
            Node::NumLit(x) => {
                proof {
                    assert(sp_eval(n@, st0, fuel as nat) == StepV {
                        res: Ok(FlowV::Normal(ValueV::Number(*x))),
                        st: st0,
                    });
                }
                Ok(Flow::Normal(Value::Number(*x)))
            },
            Node::StrLit(sl) => {
                proof {
                    assert(sp_eval(n@, st0, fuel as nat) == StepV {
                        res: Ok(FlowV::Normal(ValueV::Str(sl@))),
                        st: st0,
                    });
                }
                Ok(Flow::Normal(Value::Str(sl.clone())))
            },
            Node::BoolLit(b) => {
                proof {
                    assert(sp_eval(n@, st0, fuel as nat) == StepV {
                        res: Ok(FlowV::Normal(ValueV::Bool(*b))),
                        st: st0,
                    });
                }
                Ok(Flow::Normal(Value::Bool(*b)))
            },
            Node::Name(x) => {
                proof {
                    assert(sp_eval(n@, st0, fuel as nat) == StepV {
                        res: Ok(FlowV::Normal(frame_read(st0, x@))),
                        st: st0,
                    });
                }
                Ok(Flow::Normal(frame.read(x.as_str())))
            },
            Node::Empty => {
                proof {
                    assert(sp_eval(n@, st0, fuel as nat) == StepV {
                        res: Ok(FlowV::Normal(ValueV::Null)),
                        st: st0,
                    });
                }
                Ok(Flow::Normal(Value::Null))
            },
            Node::Call(x, args) => {
                proof {
                    assert(n@ == NodeV::Call(x@, nodes_view(args@)));
                    assert(sp_eval(n@, st0, fuel as nat) == sp_call(
                        x@,
                        nodes_view(args@),
                        st0,
                        f,
                    ));
                }
                self.eval_call(x, args, frame, fuel - 1)
            },
            Node::MethodCall(recv, m, args) => {
                proof {
                    assert(n@ == NodeV::MethodCall(
                        Box::new((**recv)@),
                        m@,
                        nodes_view(args@),
                    ));
                    assert(sp_eval(n@, st0, fuel as nat) == sp_method(
                        (**recv)@,
                        m@,
                        nodes_view(args@),
                        st0,
                        f,
                    ));
                }
                self.eval_method(recv, m, args, frame, fuel - 1)
            },
            Node::New(x, args) => {
                proof {
                    assert(n@ == NodeV::New(x@, nodes_view(args@)));
                    assert(sp_eval(n@, st0, fuel as nat) == sp_new(
                        x@,
                        nodes_view(args@),
                        st0,
                        f,
                    ));
                }
                self.eval_new(x, args, frame, fuel - 1)
            },
            Node::While(c, b) => {
                proof {
                    assert(n@ == NodeV::While(Box::new((**c)@), Box::new((**b)@)));
                    assert(sp_eval(n@, st0, fuel as nat) == sp_while(
                        (**c)@,
                        (**b)@,
                        ValueV::Null,
                        st0,
                        f,
                    ));
                }
                self.eval_while(c, b, Value::Null, frame, fuel - 1)
            },
            _ => self.eval2(n, frame, fuel),
        }
    }

    /// Evaluates the assignment, arithmetic, and comparison nodes, as
    /// `sp_eval` prescribes.
    #[verifier::rlimit(100)]
    fn eval2(&mut self, n: &Node, frame: &mut Bindings, fuel: u64) -> (r: Result<
        Flow,
        EvalError,
    >)
        requires
            (n matches Node::Assign(_, _)) ||
            (n matches Node::IndexAssign(_, _, _)) ||
            (n matches Node::PropAssign(_, _, _)) ||
            (n matches Node::Arith(_, _, _)) ||
            (n matches Node::Cmp(_, _, _)) ||
            (n matches Node::PropGet(_, _)) ||
            (n matches Node::FuncDef(_, _, _)) ||
            (n matches Node::ClassDef(_, _)) ||
            (n matches Node::Return(_)) ||
            (n matches Node::If(_, _, _)) ||
            (n matches Node::For(_, _, _, _)) ||
            (n matches Node::ArrayLit(_)) ||
            (n matches Node::Index(_, _)),
        ensures
            ({
                let step = sp_eval(n@, interp_st(*old(self), old(frame)@), fuel as nat);
                &&& res_view(r) == step.res
                &&& interp_st(*final(self), final(frame)@) == step.st
            }),
        decreases fuel, 4int,
    {
        let ghost st0 = interp_st(*self, frame@);
        if fuel == 0 {
            proof {
                assert(sp_eval(n@, st0, 0) == StepV { res: Err(EvalError::StepLimit), st: st0 });
            }
            return Err(EvalError::StepLimit);
        }
        let ghost f = (fuel - 1) as nat;
        match n {
            Node::Assign(x, e) => {
                proof {
                    assert(n@ == NodeV::Assign(x@, Box::new((**e)@)));
                    assert(sp_eval(n@, st0, fuel as nat) == ({
                        let s1 = sp_eval((**e)@, st0, f);
                        match s1.res {
                            Ok(FlowV::Normal(v)) => StepV {
                                res: Ok(FlowV::Normal(v)),
                                st: StateV { frame: s1.st.frame.insert(x@, v), ..s1.st },
                            },
                            _ => s1,
                        }
                    }));
                }
                match self.eval(e, frame, fuel - 1) {
                    Ok(Flow::Normal(v)) => {
                        let stored = deep_clone(&v);
                        frame.set(x.clone(), stored);
                        Ok(Flow::Normal(v))
                    },
                    other => other,
                }
            },
            Node::IndexAssign(x, idxs, e) => {
                proof {
                    assert(n@ == NodeV::IndexAssign(x@, nodes_view(idxs@), Box::new((**e)@)));
                    assert(sp_eval(n@, st0, fuel as nat) == ({
                        let l1 = sp_eval_list(nodes_view(idxs@), false, st0, f);
                        match l1.res {
                            ListRes::Fail(err) => StepV { res: Err(err), st: l1.st },
                            ListRes::Stop(flow) => StepV { res: Ok(flow), st: l1.st },
                            ListRes::Vals(ivs) => {
                                let s2 = sp_eval((**e)@, l1.st, f);
                                match s2.res {
                                    Ok(FlowV::Normal(v)) => match to_indices(ivs) {
                                        Some(ii) => match set_index_chain(
                                            frame_read(s2.st, x@),
                                            ii,
                                            v,
                                        ) {
                                            Ok(c2) => StepV {
                                                res: Ok(FlowV::Normal(v)),
                                                st: StateV {
                                                    frame: s2.st.frame.insert(x@, c2),
                                                    ..s2.st
                                                },
                                            },
                                            Err(err) => StepV { res: Err(err), st: s2.st },
                                        },
                                        None => StepV {
                                            res: Err(EvalError::IndexError),
                                            st: s2.st,
                                        },
                                    },
                                    _ => s2,
                                }
                            },
                        }
                    }));
                    assert(nodes_view(idxs@).subrange(0, idxs@.len() as int) =~= nodes_view(
                        idxs@,
                    ));
                }
                match self.eval_list(idxs, 0, false, frame, fuel - 1) {
                    ListOut::Fail(err) => Err(err),
                    ListOut::Stop(flow) => Ok(flow),
                    ListOut::Vals(ivs) => {
                        match self.eval(e, frame, fuel - 1) {
                            Ok(Flow::Normal(v)) => {
                                proof {
                                    assert(vals_view(ivs@).subrange(0, ivs@.len() as int)
                                        =~= vals_view(ivs@));
                                }
                                match to_indices_ex(&ivs, 0) {
                                    Some(ii) => {
                                        let container = frame.read(x.as_str());
                                        proof {
                                            assert(ints_view(ii@).subrange(
                                                0,
                                                ii@.len() as int,
                                            ) =~= ints_view(ii@));
                                        }
                                        match set_chain(container, &ii, 0, deep_clone(&v)) {
                                            Ok(c2) => {
                                                frame.set(x.clone(), c2);
                                                Ok(Flow::Normal(v))
                                            },
                                            Err(err) => Err(err),
                                        }
                                    },
                                    None => Err(EvalError::IndexError),
                                }
                            },
                            other => other,
                        }
                    },
                }
            },
            Node::PropAssign(x, p, e) => {
                proof {
                    assert(n@ == NodeV::PropAssign(x@, p@, Box::new((**e)@)));
                    assert(sp_eval(n@, st0, fuel as nat) == ({
                        let s1 = sp_eval((**e)@, st0, f);
                        match s1.res {
                            Ok(FlowV::Normal(v)) => match frame_read(s1.st, x@) {
                                ValueV::Object(ps) => StepV {
                                    res: Ok(FlowV::Normal(v)),
                                    st: StateV {
                                        frame: s1.st.frame.insert(
                                            x@,
                                            ValueV::Object(crate::value::props_set(ps, p@, v)),
                                        ),
                                        ..s1.st
                                    },
                                },
                                _ => StepV { res: Err(EvalError::TypeError), st: s1.st },
                            },
                            _ => s1,
                        }
                    }));
                }
                match self.eval(e, frame, fuel - 1) {
                    Ok(Flow::Normal(v)) => {
                        match frame.read(x.as_str()) {
                            Value::Object(ps) => {
                                let ps2 = object_set(ps, p.as_str(), deep_clone(&v));
                                frame.set(x.clone(), Value::Object(ps2));
                                Ok(Flow::Normal(v))
                            },
                            other => {
                                proof {
                                    assert(!(other@ is Object));
                                }
                                Err(EvalError::TypeError)
                            },
                        }
                    },
                    other => other,
                }
            },
            Node::Arith(op, l, rr) => {
                proof {
                    assert(n@ == NodeV::Arith(*op, Box::new((**l)@), Box::new((**rr)@)));
                    assert(sp_eval(n@, st0, fuel as nat) == ({
                        let s1 = sp_eval((**l)@, st0, f);
                        match s1.res {
                            Ok(FlowV::Normal(lv)) => {
                                let s2 = sp_eval((**rr)@, s1.st, f);
                                match s2.res {
                                    Ok(FlowV::Normal(rv)) => match lv {
                                        ValueV::Str(sv) => match sp_render(rv, f) {
                                            Ok(t) => StepV {
                                                res: Ok(FlowV::Normal(ValueV::Str(sv + t))),
                                                st: s2.st,
                                            },
                                            Err(err) => StepV { res: Err(err), st: s2.st },
                                        },
                                        _ => StepV {
                                            res: Ok(
                                                FlowV::Normal(
                                                    ValueV::Number(
                                                        arith_num(
                                                            *op,
                                                            num_coerce(s2.st.frame, lv),
                                                            num_coerce(s2.st.frame, rv),
                                                        ),
                                                    ),
                                                ),
                                            ),
                                            st: s2.st,
                                        },
                                    },
                                    _ => s2,
                                }
                            },
                            _ => s1,
                        }
                    }));
                }
                match self.eval(l, frame, fuel - 1) {
                    Ok(Flow::Normal(lv)) => {
                        match self.eval(rr, frame, fuel - 1) {
                            Ok(Flow::Normal(rv)) => {
                                match lv {
                                    Value::Str(sv) => {
                                        match render_value(&rv, fuel - 1) {
                                            Ok(t) => {
                                                let mut out = sv;
                                                out.append(t.as_str());
                                                Ok(Flow::Normal(Value::Str(out)))
                                            },
                                            Err(err) => Err(err),
                                        }
                                    },
                                    lvo => {
                                        let a = num_coerce_ex(frame, &lvo);
                                        let b = num_coerce_ex(frame, &rv);
                                        proof {
                                            assert(!(lvo@ is Str));
                                        }
                                        Ok(Flow::Normal(Value::Number(arith_num_ex(*op, a, b))))
                                    },
                                }
                            },
                            other => other,
                        }
                    },
                    other => other,
                }
            },
            Node::Cmp(op, l, rr) => {
                proof {
                    assert(n@ == NodeV::Cmp(*op, Box::new((**l)@), Box::new((**rr)@)));
                    assert(sp_eval(n@, st0, fuel as nat) == ({
                        let s1 = sp_eval((**l)@, st0, f);
                        match s1.res {
                            Ok(FlowV::Normal(lv)) => {
                                let s2 = sp_eval((**rr)@, s1.st, f);
                                match s2.res {
                                    Ok(FlowV::Normal(rv)) => StepV {
                                        res: Ok(
                                            FlowV::Normal(
                                                ValueV::Bool(
                                                    crate::semantics::cmp_result(*op, lv, rv),
                                                ),
                                            ),
                                        ),
                                        st: s2.st,
                                    },
                                    _ => s2,
                                }
                            },
                            _ => s1,
                        }
                    }));
                }
                match self.eval(l, frame, fuel - 1) {
                    Ok(Flow::Normal(lv)) => {
                        match self.eval(rr, frame, fuel - 1) {
                            Ok(Flow::Normal(rv)) => {
                                let c = match op {
                                    CmpOp::Eq => value_eq(&lv, &rv),
                                    CmpOp::Ne => !value_eq(&lv, &rv),
                                    CmpOp::Ge => !matches!(value_cmp(&lv, &rv), Cmp::Lt),
                                    CmpOp::Le => !matches!(value_cmp(&lv, &rv), Cmp::Gt),
                                    CmpOp::Lt => matches!(value_cmp(&lv, &rv), Cmp::Lt),
                                    CmpOp::Gt => matches!(value_cmp(&lv, &rv), Cmp::Gt),
                                };
                                Ok(Flow::Normal(Value::Bool(c)))
                            },
                            other => other,
                        }
                    },
                    other => other,
                }
            },
            _ => self.eval3(n, frame, fuel),
        }
    }

    /// Evaluates the definition and property nodes, as `sp_eval`
    /// prescribes.
    #[verifier::rlimit(100)]
    fn eval3(&mut self, n: &Node, frame: &mut Bindings, fuel: u64) -> (r: Result<
        Flow,
        EvalError,
    >)
        requires
            (n matches Node::PropGet(_, _)) ||
            (n matches Node::FuncDef(_, _, _)) ||
            (n matches Node::ClassDef(_, _)) ||
            (n matches Node::Return(_)) ||
            (n matches Node::If(_, _, _)) ||
            (n matches Node::For(_, _, _, _)) ||
            (n matches Node::ArrayLit(_)) ||
            (n matches Node::Index(_, _)),
        ensures
            ({
                let step = sp_eval(n@, interp_st(*old(self), old(frame)@), fuel as nat);
                &&& res_view(r) == step.res
                &&& interp_st(*final(self), final(frame)@) == step.st
            }),
        decreases fuel, 3int,
    {
        let ghost st0 = interp_st(*self, frame@);
        if fuel == 0 {
            proof {
                assert(sp_eval(n@, st0, 0) == StepV { res: Err(EvalError::StepLimit), st: st0 });
            }
            return Err(EvalError::StepLimit);
        }
        let ghost f = (fuel - 1) as nat;
        match n {
            Node::PropGet(e, p) => {
                proof {
                    assert(n@ == NodeV::PropGet(Box::new((**e)@), p@));
                    assert(sp_eval(n@, st0, fuel as nat) == ({
                        let s1 = sp_eval((**e)@, st0, f);
                        match s1.res {
                            Ok(FlowV::Normal(v)) => match v {
                                ValueV::Object(ps) => match props_get(ps, p@) {
                                    Some(pv) => StepV {
                                        res: Ok(FlowV::Normal(pv)),
                                        st: s1.st,
                                    },
                                    None => StepV {
                                        res: Err(EvalError::PropertyError),
                                        st: s1.st,
                                    },
                                },
                                _ => StepV { res: Err(EvalError::TypeError), st: s1.st },
                            },
                            _ => s1,
                        }
                    }));
                }
                match self.eval(e, frame, fuel - 1) {
                    Ok(Flow::Normal(v)) => {
                        match v {
                            Value::Object(ps) => {
                                match object_get(&ps, p.as_str()) {
                                    Some(pv) => Ok(Flow::Normal(pv)),
                                    None => Err(EvalError::PropertyError),
                                }
                            },
                            vo => {
                                proof {
                                    assert(!(vo@ is Object));
                                }
                                Err(EvalError::TypeError)
                            },
                        }
                    },
                    other => other,
                }
            },
            Node::FuncDef(x, ps, b) => {
                proof {
                    assert(n@ == NodeV::FuncDef(x@, params_view(ps@), Box::new((**b)@)));
                    assert(sp_eval(n@, st0, fuel as nat) == ({
                        let fv = ValueV::Function(x@, params_view(ps@), Box::new((**b)@));
                        StepV {
                            res: Ok(FlowV::Normal(fv)),
                            st: StateV { heap: st0.heap.insert(x@, fv), ..st0 },
                        }
                    }));
                }
                let fv = func_value(x, ps, b);
                let fv2 = func_value(x, ps, b);
                self.heap.set(x.clone(), fv2);
                Ok(Flow::Normal(fv))
            },
            Node::ClassDef(x, ds) => {
                proof {
                    assert(n@ == NodeV::ClassDef(x@, nodes_view(ds@)));
                    assert(sp_eval(n@, st0, fuel as nat) == (match class_methods(
                        nodes_view(ds@),
                        seq![("~name"@, ValueV::Str(x@))],
                    ) {
                        Some(ms) => {
                            let tmpl = ValueV::Object(ms);
                            StepV {
                                res: Ok(FlowV::Normal(tmpl)),
                                st: StateV { heap: st0.heap.insert(x@, tmpl), ..st0 },
                            }
                        },
                        None => StepV { res: Err(EvalError::UnexpectedNodeError), st: st0 },
                    }));
                    assert(nodes_view(ds@).subrange(0, ds@.len() as int) =~= nodes_view(ds@));
                }
                let mut acc: Vec<(String, Value)> = Vec::new();
                acc.push((String::from_str("~name"), Value::Str(x.clone())));
                proof {
                    assert(obj_view(acc@) =~= seq![("~name"@, ValueV::Str(x@))]);
                }
                match class_props_ex(ds, 0, acc) {
                    Some(ms) => {
                        let tmpl = Value::Object(ms);
                        let stored = deep_clone(&tmpl);
                        self.heap.set(x.clone(), stored);
                        proof {
                            assert(tmpl@ is Object);
                        }
                        Ok(Flow::Normal(tmpl))
                    },
                    None => Err(EvalError::UnexpectedNodeError),
                }
            },
            Node::Return(e) => {
                proof {
                    assert(n@ == NodeV::Return(Box::new((**e)@)));
                    assert(sp_eval(n@, st0, fuel as nat) == ({
                        let s1 = sp_eval((**e)@, st0, f);
                        match s1.res {
                            Ok(flow) => StepV {
                                res: Ok(FlowV::Return(flow.value())),
                                st: s1.st,
                            },
                            _ => s1,
                        }
                    }));
                }
                match self.eval(e, frame, fuel - 1) {
                    Ok(Flow::Normal(v)) => Ok(Flow::Return(v)),
                    Ok(Flow::Return(v)) => Ok(Flow::Return(v)),
                    Err(err) => Err(err),
                }
            },
            _ => self.eval4(n, frame, fuel),
        }
    }

    /// Evaluates the branching and loop nodes, as `sp_eval`
    /// prescribes.
    #[verifier::rlimit(100)]
    fn eval4(&mut self, n: &Node, frame: &mut Bindings, fuel: u64) -> (r: Result<
        Flow,
        EvalError,
    >)
        requires
            (n matches Node::If(_, _, _)) ||
            (n matches Node::For(_, _, _, _)) ||
            (n matches Node::ArrayLit(_)) ||
            (n matches Node::Index(_, _)),
        ensures
            ({
                let step = sp_eval(n@, interp_st(*old(self), old(frame)@), fuel as nat);
                &&& res_view(r) == step.res
                &&& interp_st(*final(self), final(frame)@) == step.st
            }),
        decreases fuel, 2int,
    {
        let ghost st0 = interp_st(*self, frame@);
        if fuel == 0 {
            proof {
                assert(sp_eval(n@, st0, 0) == StepV { res: Err(EvalError::StepLimit), st: st0 });
            }
            return Err(EvalError::StepLimit);
        }
        let ghost f = (fuel - 1) as nat;
        match n {
            Node::If(c, b, e) => {
                proof {
                    assert(n@ == NodeV::If(
                        Box::new((**c)@),
                        Box::new((**b)@),
                        Box::new((**e)@),
                    ));
                    assert(sp_eval(n@, st0, fuel as nat) == ({
                        let s1 = sp_eval((**c)@, st0, f);
                        match s1.res {
                            Ok(FlowV::Normal(cv)) => if cv == ValueV::Bool(true) {
                                sp_eval((**b)@, s1.st, f)
                            } else {
                                sp_eval((**e)@, s1.st, f)
                            },
                            _ => s1,
                        }
                    }));
                }
                match self.eval(c, frame, fuel - 1) {
                    Ok(Flow::Normal(cv)) => {
                        let taken = match &cv {
                            Value::Bool(bv) => *bv,
                            _ => false,
                        };
                        proof {
                            if !taken {
                                assert(cv@ != ValueV::Bool(true));
                            }
                        }
                        if taken {
                            self.eval(b, frame, fuel - 1)
                        } else {
                            self.eval(e, frame, fuel - 1)
                        }
                    },
                    other => other,
                }
            },            Node::For(init, c, stp, b) => {
                proof {
                    assert(n@ == NodeV::For(
                        Box::new((**init)@),
                        Box::new((**c)@),
                        Box::new((**stp)@),
                        Box::new((**b)@),
                    ));
                    assert(sp_eval(n@, st0, fuel as nat) == ({
                        let s1 = sp_eval((**init)@, st0, f);
                        match s1.res {
                            Ok(FlowV::Normal(_)) => sp_for(
                                (**c)@,
                                (**stp)@,
                                (**b)@,
                                ValueV::Null,
                                s1.st,
                                f,
                            ),
                            _ => s1,
                        }
                    }));
                }
                match self.eval(init, frame, fuel - 1) {
                    Ok(Flow::Normal(_)) => self.eval_for(c, stp, b, Value::Null, frame, fuel - 1),
                    other => other,
                }
            },            _ => self.eval5(n, frame, fuel),
        }
    }

    /// Evaluates the array-literal node, as `sp_eval` prescribes.
    #[verifier::rlimit(100)]
    fn eval5(&mut self, n: &Node, frame: &mut Bindings, fuel: u64) -> (r: Result<
        Flow,
        EvalError,
    >)
        requires
            (n matches Node::ArrayLit(_)) ||
            (n matches Node::Index(_, _)),
        ensures
            ({
                let step = sp_eval(n@, interp_st(*old(self), old(frame)@), fuel as nat);
                &&& res_view(r) == step.res
                &&& interp_st(*final(self), final(frame)@) == step.st
            }),
        decreases fuel, 1int,
    {
        let ghost st0 = interp_st(*self, frame@);
        if fuel == 0 {
            proof {
                assert(sp_eval(n@, st0, 0) == StepV { res: Err(EvalError::StepLimit), st: st0 });
            }
            return Err(EvalError::StepLimit);
        }
        let ghost f = (fuel - 1) as nat;
        match n {
            Node::ArrayLit(es) => {
                proof {
                    assert(n@ == NodeV::ArrayLit(nodes_view(es@)));
                    assert(sp_eval(n@, st0, fuel as nat) == ({
                        let l1 = sp_eval_list(nodes_view(es@), false, st0, f);
                        match l1.res {
                            ListRes::Vals(vs) => StepV {
                                res: Ok(FlowV::Normal(ValueV::Array(vs))),
                                st: l1.st,
                            },
                            ListRes::Stop(flow) => StepV { res: Ok(flow), st: l1.st },
                            ListRes::Fail(err) => StepV { res: Err(err), st: l1.st },
                        }
                    }));
                    assert(nodes_view(es@).subrange(0, es@.len() as int) =~= nodes_view(es@));
                }
                match self.eval_list(es, 0, false, frame, fuel - 1) {
                    ListOut::Vals(vs) => {
                        let rv = Value::Array(vs);
                        proof {
                            assert(rv@ is Array);
                        }
                        Ok(Flow::Normal(rv))
                    },
                    ListOut::Stop(flow) => Ok(flow),
                    ListOut::Fail(err) => Err(err),
                }
            },            _ => self.eval6(n, frame, fuel),
        }
    }

    /// Evaluates the indexing node, as `sp_eval` prescribes.
    #[verifier::rlimit(100)]
    fn eval6(&mut self, n: &Node, frame: &mut Bindings, fuel: u64) -> (r: Result<
        Flow,
        EvalError,
    >)
        requires
            (n matches Node::Index(_, _)),
        ensures
            ({
                let step = sp_eval(n@, interp_st(*old(self), old(frame)@), fuel as nat);
                &&& res_view(r) == step.res
                &&& interp_st(*final(self), final(frame)@) == step.st
            }),
        decreases fuel, 0int,
    {
        let ghost st0 = interp_st(*self, frame@);
        if fuel == 0 {
            proof {
                assert(sp_eval(n@, st0, 0) == StepV { res: Err(EvalError::StepLimit), st: st0 });
            }
            return Err(EvalError::StepLimit);
        }
        let ghost f = (fuel - 1) as nat;
        match n {
            Node::Index(e, ie) => {
                proof {
                    assert(n@ == NodeV::Index(Box::new((**e)@), Box::new((**ie)@)));
                    assert(sp_eval(n@, st0, fuel as nat) == ({
                        let s1 = sp_eval((**e)@, st0, f);
                        match s1.res {
                            Ok(FlowV::Normal(av)) => {
                                let s2 = sp_eval((**ie)@, s1.st, f);
                                match s2.res {
                                    Ok(FlowV::Normal(iv)) => match (av, iv) {
                                        (ValueV::Array(esv), ValueV::Number(ix)) => {
                                            let ri = if ix < 0 {
                                                0int
                                            } else {
                                                ix as int
                                            };
                                            if ri < esv.len() {
                                                StepV {
                                                    res: Ok(FlowV::Normal(esv[ri])),
                                                    st: s2.st,
                                                }
                                            } else {
                                                StepV {
                                                    res: Err(EvalError::IndexError),
                                                    st: s2.st,
                                                }
                                            }
                                        },
                                        _ => StepV {
                                            res: Err(EvalError::IndexError),
                                            st: s2.st,
                                        },
                                    },
                                    _ => s2,
                                }
                            },
                            _ => s1,
                        }
                    }));
                }
                match self.eval(e, frame, fuel - 1) {
                    Ok(Flow::Normal(av)) => {
                        match self.eval(ie, frame, fuel - 1) {
                            Ok(Flow::Normal(iv)) => {
                                match av {
                                    Value::Array(esv) => match iv {
                                        Value::Number(ix) => {
                                            let riu: u64 = if ix < 0 {
                                                0
                                            } else {
                                                ix as u64
                                            };
                                            if riu < esv.len() as u64 {
                                                proof {
                                                    assert(riu < esv@.len());
                                                    assert(riu as usize as int == riu as int);
                                                    assert(vals_view(esv@)[riu as int] == esv@[
                                                        riu as int
                                                    ]@);
                                                }
                                                Ok(Flow::Normal(
                                                    deep_clone(&esv[riu as usize]),
                                                ))
                                            } else {
                                                proof {
                                                    assert(vals_view(esv@).len() == esv@.len());
                                                }
                                                Err(EvalError::IndexError)
                                            }
                                        },
                                        ivo => {
                                            proof {
                                                assert(!(ivo@ is Number));
                                            }
                                            Err(EvalError::IndexError)
                                        },
                                    },
                                    avo => {
                                        proof {
                                            assert(!(avo@ is Array));
                                        }
                                        Err(EvalError::IndexError)
                                    },
                                }
                            },
                            other => other,
                        }
                    },
                    other => other,
                }
            },
            _ => {
                proof {
                    assert(false);
                }
                Err(EvalError::UnexpectedNodeError)
            },
        }
    }

    /// Evaluates a block's statements from position `k` on, as
    /// `sp_block` prescribes.
    fn eval_block(&mut self, ss: &Vec<Node>, k: usize, frame: &mut Bindings, fuel: u64) -> (r:
        Result<Flow, EvalError>)
        requires
            k <= ss@.len(),
        ensures
            ({
                let step = sp_block(
                    nodes_view(ss@).subrange(k as int, ss@.len() as int),
                    interp_st(*old(self), old(frame)@),
                    fuel as nat,
                );
                &&& res_view(r) == step.res
                &&& interp_st(*final(self), final(frame)@) == step.st
            }),
        decreases fuel,
    {
        let ghost st0 = interp_st(*self, frame@);
        let ghost sub = nodes_view(ss@).subrange(k as int, ss@.len() as int);
        proof {
            assert(sp_block(sub, st0, fuel as nat) == if fuel == 0 {
                StepV { res: Err(EvalError::StepLimit), st: st0 }
            } else if sub.len() == 0 {
                StepV { res: Ok(FlowV::Normal(ValueV::Null)), st: st0 }
            } else {
                let s1 = sp_eval(sub[0], st0, (fuel - 1) as nat);
                match s1.res {
                    Ok(FlowV::Normal(_)) => sp_block(
                        sub.subrange(1, sub.len() as int),
                        s1.st,
                        (fuel - 1) as nat,
                    ),
                    _ => s1,
                }
            });
        }
        if fuel == 0 {
            return Err(EvalError::StepLimit);
        }
        if k == ss.len() {
            return Ok(Flow::Normal(Value::Null));
        }
        proof {
            assert(sub[0] == ss@[k as int]@);
            assert(sub.subrange(1, sub.len() as int) =~= nodes_view(ss@).subrange(
                k + 1,
                ss@.len() as int,
            ));
        }
        match self.eval(&ss[k], frame, fuel - 1) {
            Ok(Flow::Normal(_)) => self.eval_block(ss, k + 1, frame, fuel - 1),
            other => other,
        }
    }

    /// Evaluates expressions from position `k` on into values, as
    /// `sp_eval_list` prescribes.
    fn eval_list(
        &mut self,
        ns: &Vec<Node>,
        k: usize,
        resolve: bool,
        frame: &mut Bindings,
        fuel: u64,
    ) -> (r: ListOut)
        requires
            k <= ns@.len(),
        ensures
            ({
                let step = sp_eval_list(
                    nodes_view(ns@).subrange(k as int, ns@.len() as int),
                    resolve,
                    interp_st(*old(self), old(frame)@),
                    fuel as nat,
                );
                &&& list_out_view(r) == step.res
                &&& interp_st(*final(self), final(frame)@) == step.st
            }),
        decreases fuel,
    {
        let ghost st0 = interp_st(*self, frame@);
        let ghost sub = nodes_view(ns@).subrange(k as int, ns@.len() as int);
        proof {
            assert(sp_eval_list(sub, resolve, st0, fuel as nat) == if fuel == 0 {
                ListStepV { res: ListRes::Fail(EvalError::StepLimit), st: st0 }
            } else if sub.len() == 0 {
                ListStepV { res: ListRes::Vals(Seq::empty()), st: st0 }
            } else {
                let f = (fuel - 1) as nat;
                let s1 = sp_eval(sub[0], st0, f);
                match s1.res {
                    Err(e) => ListStepV { res: ListRes::Fail(e), st: s1.st },
                    Ok(FlowV::Return(v)) => ListStepV {
                        res: ListRes::Stop(FlowV::Return(v)),
                        st: s1.st,
                    },
                    Ok(FlowV::Normal(v)) => {
                        let v1 = if resolve {
                            resolve_ref(s1.st.frame, v)
                        } else {
                            v
                        };
                        let rest = sp_eval_list(
                            sub.subrange(1, sub.len() as int),
                            resolve,
                            s1.st,
                            f,
                        );
                        ListStepV {
                            res: match rest.res {
                                ListRes::Vals(vs) => ListRes::Vals(seq![v1] + vs),
                                other => other,
                            },
                            st: rest.st,
                        }
                    },
                }
            });
        }
        if fuel == 0 {
            return ListOut::Fail(EvalError::StepLimit);
        }
        if k == ns.len() {
            let r: Vec<Value> = Vec::new();
            proof {
                assert(vals_view(r@) =~= Seq::<ValueV>::empty());
            }
            return ListOut::Vals(r);
        }
        proof {
            assert(sub[0] == ns@[k as int]@);
            assert(sub.subrange(1, sub.len() as int) =~= nodes_view(ns@).subrange(
                k + 1,
                ns@.len() as int,
            ));
        }
        match self.eval(&ns[k], frame, fuel - 1) {
            Err(e) => ListOut::Fail(e),
            Ok(Flow::Return(v)) => ListOut::Stop(Flow::Return(v)),
            Ok(Flow::Normal(v)) => {
                let v1 = if resolve {
                    resolve_ex(frame, v)
                } else {
                    v
                };
                match self.eval_list(ns, k + 1, resolve, frame, fuel - 1) {
                    ListOut::Vals(vs) => {
                        let mut vs = vs;
                        let ghost vsv = vals_view(vs@);
                        vs.insert(0, v1);
                        proof {
                            assert(vals_view(vs@) =~= seq![v1@] + vsv);
                        }
                        ListOut::Vals(vs)
                    },
                    other => other,
                }
            },
        }
    }

    /// One `while` round, as `sp_while` prescribes.
    fn eval_while(
        &mut self,
        c: &Node,
        b: &Node,
        ret: Value,
        frame: &mut Bindings,
        fuel: u64,
    ) -> (r: Result<Flow, EvalError>)
        ensures
            ({
                let step = sp_while(
                    c@,
                    b@,
                    ret@,
                    interp_st(*old(self), old(frame)@),
                    fuel as nat,
                );
                &&& res_view(r) == step.res
                &&& interp_st(*final(self), final(frame)@) == step.st
            }),
        decreases fuel,
    {
        let ghost st0 = interp_st(*self, frame@);
        proof {
            assert(sp_while(c@, b@, ret@, st0, fuel as nat) == if fuel == 0 {
                StepV { res: Err(EvalError::StepLimit), st: st0 }
            } else {
                let f = (fuel - 1) as nat;
                let s1 = sp_eval(c@, st0, f);
                match s1.res {
                    Ok(FlowV::Normal(cv)) => if cv == ValueV::Bool(true) {
                        let s2 = sp_eval(b@, s1.st, f);
                        match s2.res {
                            Ok(FlowV::Normal(bv)) => sp_while(c@, b@, bv, s2.st, f),
                            _ => s2,
                        }
                    } else {
                        StepV { res: Ok(FlowV::Normal(ret@)), st: s1.st }
                    },
                    _ => s1,
                }
            });
        }
        if fuel == 0 {
            return Err(EvalError::StepLimit);
        }
        match self.eval(c, frame, fuel - 1) {
            Ok(Flow::Normal(cv)) => {
                let taken = match &cv {
                    Value::Bool(bv) => *bv,
                    _ => false,
                };
                proof {
                    if !taken {
                        assert(cv@ != ValueV::Bool(true));
                    }
                }
                if taken {
                    match self.eval(b, frame, fuel - 1) {
                        Ok(Flow::Normal(bv)) => self.eval_while(c, b, bv, frame, fuel - 1),
                        other => other,
                    }
                } else {
                    Ok(Flow::Normal(ret))
                }
            },
            other => other,
        }
    }

    /// One `for` round, as `sp_for` prescribes.
    fn eval_for(
        &mut self,
        c: &Node,
        stp: &Node,
        b: &Node,
        ret: Value,
        frame: &mut Bindings,
        fuel: u64,
    ) -> (r: Result<Flow, EvalError>)
        ensures
            ({
                let step = sp_for(
                    c@,
                    stp@,
                    b@,
                    ret@,
                    interp_st(*old(self), old(frame)@),
                    fuel as nat,
                );
                &&& res_view(r) == step.res
                &&& interp_st(*final(self), final(frame)@) == step.st
            }),
        decreases fuel,
    {
        let ghost st0 = interp_st(*self, frame@);
        proof {
            assert(sp_for(c@, stp@, b@, ret@, st0, fuel as nat) == if fuel == 0 {
                StepV { res: Err(EvalError::StepLimit), st: st0 }
            } else {
                let f = (fuel - 1) as nat;
                let s1 = sp_eval(c@, st0, f);
                match s1.res {
                    Ok(FlowV::Normal(cv)) => if cv == ValueV::Bool(true) {
                        let s2 = sp_eval(b@, s1.st, f);
                        match s2.res {
                            Ok(FlowV::Normal(bv)) => {
                                let s3 = sp_eval(stp@, s2.st, f);
                                match s3.res {
                                    Ok(FlowV::Normal(_)) => sp_for(
                                        c@,
                                        stp@,
                                        b@,
                                        bv,
                                        s3.st,
                                        f,
                                    ),
                                    _ => s3,
                                }
                            },
                            _ => s2,
                        }
                    } else {
                        StepV { res: Ok(FlowV::Normal(ret@)), st: s1.st }
                    },
                    _ => s1,
                }
            });
        }
        if fuel == 0 {
            return Err(EvalError::StepLimit);
        }
        match self.eval(c, frame, fuel - 1) {
            Ok(Flow::Normal(cv)) => {
                let taken = match &cv {
                    Value::Bool(bv) => *bv,
                    _ => false,
                };
                proof {
                    if !taken {
                        assert(cv@ != ValueV::Bool(true));
                    }
                }
                if taken {
                    match self.eval(b, frame, fuel - 1) {
                        Ok(Flow::Normal(bv)) => {
                            match self.eval(stp, frame, fuel - 1) {
                                Ok(Flow::Normal(_)) => self.eval_for(
                                    c,
                                    stp,
                                    b,
                                    bv,
                                    frame,
                                    fuel - 1,
                                ),
                                other => other,
                            }
                        },
                        other => other,
                    }
                } else {
                    Ok(Flow::Normal(ret))
                }
            },
            other => other,
        }
    }

    /// A call by name, as `sp_call` prescribes.
    fn eval_call(
        &mut self,
        name: &String,
        args: &Vec<Node>,
        frame: &mut Bindings,
        fuel: u64,
    ) -> (r: Result<Flow, EvalError>)
        ensures
            ({
                let step = sp_call(
                    name@,
                    nodes_view(args@),
                    interp_st(*old(self), old(frame)@),
                    fuel as nat,
                );
                &&& res_view(r) == step.res
                &&& interp_st(*final(self), final(frame)@) == step.st
            }),
        decreases fuel,
    {
        let ghost st0 = interp_st(*self, frame@);
        let ghost argsv = nodes_view(args@);
        proof {
            assert(sp_call(name@, argsv, st0, fuel as nat) == if fuel == 0 {
                StepV { res: Err(EvalError::StepLimit), st: st0 }
            } else {
                let f = (fuel - 1) as nat;
                if name@ == "print"@ {
                    if argsv.len() != 1 {
                        StepV { res: Err(EvalError::ArityError), st: st0 }
                    } else {
                        let s1 = sp_eval(argsv[0], st0, f);
                        match s1.res {
                            Ok(FlowV::Normal(v)) => match sp_render(
                                resolve_ref(s1.st.frame, v),
                                f,
                            ) {
                                Ok(t) => StepV {
                                    res: Ok(FlowV::Normal(ValueV::Null)),
                                    st: StateV { out: s1.st.out.push(t), ..s1.st },
                                },
                                Err(e) => StepV { res: Err(e), st: s1.st },
                            },
                            _ => s1,
                        }
                    }
                } else if !st0.heap.contains_key(name@) {
                    StepV { res: Err(EvalError::UndefinedError), st: st0 }
                } else {
                    match st0.heap[name@] {
                        ValueV::Function(_, ps, body) => if argsv.len() != ps.len() {
                            StepV { res: Err(EvalError::ArityError), st: st0 }
                        } else {
                            let l1 = sp_eval_list(argsv, true, st0, f);
                            match l1.res {
                                ListRes::Fail(e) => StepV { res: Err(e), st: l1.st },
                                ListRes::Stop(flow) => StepV { res: Ok(flow), st: l1.st },
                                ListRes::Vals(vs) => {
                                    let callee = StateV {
                                        frame: bind_list(ps, vs, Map::empty()),
                                        ..l1.st
                                    };
                                    let s2 = sp_eval(*body, callee, f);
                                    let back = StateV { frame: l1.st.frame, ..s2.st };
                                    match s2.res {
                                        Ok(flow) => StepV {
                                            res: Ok(FlowV::Normal(flow.value())),
                                            st: back,
                                        },
                                        Err(e) => StepV { res: Err(e), st: back },
                                    }
                                },
                            }
                        },
                        _ => StepV { res: Err(EvalError::TypeError), st: st0 },
                    }
                }
            });
        }
        if fuel == 0 {
            return Err(EvalError::StepLimit);
        }
        if str_eq(name.as_str(), "print") {
            if args.len() != 1 {
                return Err(EvalError::ArityError);
            }
            proof {
                assert(argsv[0] == args@[0]@);
            }
            match self.eval(&args[0], frame, fuel - 1) {
                Ok(Flow::Normal(v)) => {
                    let v1 = resolve_ex(frame, v);
                    match render_value(&v1, fuel - 1) {
                        Ok(t) => {
                            let ghost outv = lines_view(self.out@);
                            self.out.push(t);
                            proof {
                                assert(lines_view(self.out@) =~= outv.push(t@));
                            }
                            Ok(Flow::Normal(Value::Null))
                        },
                        Err(e) => Err(e),
                    }
                },
                other => other,
            }
        } else {
            match self.heap.lookup(name.as_str()) {
                None => Err(EvalError::UndefinedError),
                Some(Value::Function(_, ps, body)) => {
                    if args.len() != ps.len() {
                        return Err(EvalError::ArityError);
                    }
                    proof {
                        assert(argsv.subrange(0, argsv.len() as int) =~= argsv);
                    }
                    match self.eval_list(args, 0, true, frame, fuel - 1) {
                        ListOut::Fail(e) => Err(e),
                        ListOut::Stop(flow) => Ok(flow),
                        ListOut::Vals(vs) => {
                            let mut callee_frame = Bindings::new();
                            proof {
                                assert(params_view(ps@).subrange(0, ps@.len() as int)
                                    =~= params_view(ps@));
                                assert(vals_view(vs@).subrange(0, vs@.len() as int) =~= vals_view(
                                    vs@,
                                ));
                            }
                            bind_params(&ps, 0, &vs, 0, &mut callee_frame);
                            let r2 = self.eval(&body, &mut callee_frame, fuel - 1);
                            match r2 {
                                Ok(flow) => {
                                    let v = match flow {
                                        Flow::Normal(x) => x,
                                        Flow::Return(x) => x,
                                    };
                                    Ok(Flow::Normal(v))
                                },
                                Err(e) => Err(e),
                            }
                        },
                    }
                },
                Some(other) => {
                    proof {
                        assert(!(other@ is Function));
                    }
                    Err(EvalError::TypeError)
                },
            }
        }
    }

    /// A method call, as `sp_method` prescribes.
    fn eval_method(
        &mut self,
        recv: &Node,
        m: &String,
        args: &Vec<Node>,
        frame: &mut Bindings,
        fuel: u64,
    ) -> (r: Result<Flow, EvalError>)
        ensures
            ({
                let step = sp_method(
                    recv@,
                    m@,
                    nodes_view(args@),
                    interp_st(*old(self), old(frame)@),
                    fuel as nat,
                );
                &&& res_view(r) == step.res
                &&& interp_st(*final(self), final(frame)@) == step.st
            }),
        decreases fuel,
    {
        let ghost st0 = interp_st(*self, frame@);
        let ghost argsv = nodes_view(args@);
        proof {
            assert(sp_method(recv@, m@, argsv, st0, fuel as nat) == if fuel == 0 {
                StepV { res: Err(EvalError::StepLimit), st: st0 }
            } else {
                let f = (fuel - 1) as nat;
                let s1 = sp_eval(recv@, st0, f);
                match s1.res {
                    Ok(FlowV::Normal(rv)) => match rv {
                        ValueV::Object(ps) => match props_get(ps, m@) {
                            Some(ValueV::Function(_, mps, body)) => if argsv.len() as int
                                != mps.len() as int - 1 {
                                StepV { res: Err(EvalError::ArityError), st: s1.st }
                            } else {
                                let l1 = sp_eval_list(argsv, true, s1.st, f);
                                match l1.res {
                                    ListRes::Fail(e) => StepV { res: Err(e), st: l1.st },
                                    ListRes::Stop(flow) => StepV {
                                        res: Ok(flow),
                                        st: l1.st,
                                    },
                                    ListRes::Vals(vs) => {
                                        let callee = StateV {
                                            frame: bind_list(
                                                mps.subrange(1, mps.len() as int),
                                                vs,
                                                Map::empty().insert("self"@, rv),
                                            ),
                                            ..l1.st
                                        };
                                        let s2 = sp_eval(*body, callee, f);
                                        let back = StateV { frame: l1.st.frame, ..s2.st };
                                        match s2.res {
                                            Ok(flow) => StepV {
                                                res: Ok(FlowV::Normal(flow.value())),
                                                st: back,
                                            },
                                            Err(e) => StepV { res: Err(e), st: back },
                                        }
                                    },
                                }
                            },
                            Some(_) => StepV { res: Err(EvalError::TypeError), st: s1.st },
                            None => StepV { res: Err(EvalError::PropertyError), st: s1.st },
                        },
                        _ => StepV { res: Err(EvalError::TypeError), st: s1.st },
                    },
                    _ => s1,
                }
            });
        }
        if fuel == 0 {
            return Err(EvalError::StepLimit);
        }
        match self.eval(recv, frame, fuel - 1) {
            Ok(Flow::Normal(rv)) => {
                match &rv {
                    Value::Object(ps) => {
                        match object_get(ps, m.as_str()) {
                            Some(Value::Function(_, mps, body)) => {
                                if mps.len() == 0 || args.len() != mps.len() - 1 {
                                    return Err(EvalError::ArityError);
                                }
                                proof {
                                    assert(argsv.subrange(0, argsv.len() as int) =~= argsv);
                                }
                                match self.eval_list(args, 0, true, frame, fuel - 1) {
                                    ListOut::Fail(e) => Err(e),
                                    ListOut::Stop(flow) => Ok(flow),
                                    ListOut::Vals(vs) => {
                                        let mut callee_frame = Bindings::new();
                                        callee_frame.set(
                                            String::from_str("self"),
                                            deep_clone(&rv),
                                        );
                                        proof {
                                            assert(vals_view(vs@).subrange(
                                                0,
                                                vs@.len() as int,
                                            ) =~= vals_view(vs@));
                                        }
                                        bind_params(&mps, 1, &vs, 0, &mut callee_frame);
                                        let r2 = self.eval(&body, &mut callee_frame, fuel - 1);
                                        match r2 {
                                            Ok(flow) => {
                                                let v = match flow {
                                                    Flow::Normal(x) => x,
                                                    Flow::Return(x) => x,
                                                };
                                                Ok(Flow::Normal(v))
                                            },
                                            Err(e) => Err(e),
                                        }
                                    },
                                }
                            },
                            Some(other) => {
                                proof {
                                    assert(!(other@ is Function));
                                }
                                Err(EvalError::TypeError)
                            },
                            None => Err(EvalError::PropertyError),
                        }
                    },
                    _ => {
                        proof {
                            assert(!(rv@ is Object));
                        }
                        Err(EvalError::TypeError)
                    },
                }
            },
            other => other,
        }
    }

    /// Construction, as `sp_new` prescribes.
    fn eval_new(
        &mut self,
        name: &String,
        args: &Vec<Node>,
        frame: &mut Bindings,
        fuel: u64,
    ) -> (r: Result<Flow, EvalError>)
        ensures
            ({
                let step = sp_new(
                    name@,
                    nodes_view(args@),
                    interp_st(*old(self), old(frame)@),
                    fuel as nat,
                );
                &&& res_view(r) == step.res
                &&& interp_st(*final(self), final(frame)@) == step.st
            }),
        decreases fuel,
    {
        let ghost st0 = interp_st(*self, frame@);
        let ghost argsv = nodes_view(args@);
        proof {
            assert(sp_new(name@, argsv, st0, fuel as nat) == if fuel == 0 {
                StepV { res: Err(EvalError::StepLimit), st: st0 }
            } else {
                let f = (fuel - 1) as nat;
                if !st0.heap.contains_key(name@) {
                    StepV { res: Err(EvalError::UndefinedError), st: st0 }
                } else {
                    match st0.heap[name@] {
                        ValueV::Object(ps) => match props_get(ps, "~init"@) {
                            Some(ValueV::Function(_, ips, body)) => if argsv.len() as int
                                != ips.len() as int - 1 {
                                StepV { res: Err(EvalError::ArityError), st: st0 }
                            } else {
                                let l1 = sp_eval_list(argsv, true, st0, f);
                                match l1.res {
                                    ListRes::Fail(e) => StepV { res: Err(e), st: l1.st },
                                    ListRes::Stop(flow) => StepV {
                                        res: Ok(flow),
                                        st: l1.st,
                                    },
                                    ListRes::Vals(vs) => {
                                        let callee = StateV {
                                            frame: bind_list(
                                                ips.subrange(1, ips.len() as int),
                                                vs,
                                                Map::empty().insert(
                                                    "self"@,
                                                    ValueV::Object(ps),
                                                ),
                                            ),
                                            ..l1.st
                                        };
                                        let s2 = sp_eval(*body, callee, f);
                                        let back = StateV { frame: l1.st.frame, ..s2.st };
                                        match s2.res {
                                            Ok(_) => StepV {
                                                res: Ok(
                                                    FlowV::Normal(
                                                        frame_read(s2.st, "self"@),
                                                    ),
                                                ),
                                                st: back,
                                            },
                                            Err(e) => StepV { res: Err(e), st: back },
                                        }
                                    },
                                }
                            },
                            _ => StepV {
                                res: Ok(FlowV::Normal(ValueV::Object(ps))),
                                st: st0,
                            },
                        },
                        _ => StepV { res: Err(EvalError::TypeError), st: st0 },
                    }
                }
            });
        }
        if fuel == 0 {
            return Err(EvalError::StepLimit);
        }
        match self.heap.lookup(name.as_str()) {
            None => Err(EvalError::UndefinedError),
            Some(Value::Object(ps)) => {
                match object_get(&ps, "~init") {
                    Some(Value::Function(_, ips, body)) => {
                        if ips.len() == 0 || args.len() != ips.len() - 1 {
                            return Err(EvalError::ArityError);
                        }
                        proof {
                            assert(argsv.subrange(0, argsv.len() as int) =~= argsv);
                        }
                        match self.eval_list(args, 0, true, frame, fuel - 1) {
                            ListOut::Fail(e) => Err(e),
                            ListOut::Stop(flow) => Ok(flow),
                            ListOut::Vals(vs) => {
                                let mut callee_frame = Bindings::new();
                                callee_frame.set(String::from_str("self"), Value::Object(ps));
                                proof {
                                    assert(vals_view(vs@).subrange(0, vs@.len() as int)
                                        =~= vals_view(vs@));
                                }
                                bind_params(&ips, 1, &vs, 0, &mut callee_frame);
                                let r2 = self.eval(&body, &mut callee_frame, fuel - 1);
                                match r2 {
                                    Ok(_) => {
                                        let inst = callee_frame.read("self");
                                        Ok(Flow::Normal(inst))
                                    },
                                    Err(e) => Err(e),
                                }
                            },
                        }
                    },
                    Some(other) => {
                        proof {
                            assert(!(other@ is Function));
                        }
                        Ok(Flow::Normal(Value::Object(ps)))
                    },
                    None => Ok(Flow::Normal(Value::Object(ps))),
                }
            },
            Some(other) => {
                proof {
                    assert(!(other@ is Object));
                }
                Err(EvalError::TypeError)
            },
        }
    }
}

/// A whole program run: the outcome of `main` and everything printed.
pub struct RunOutcome {
    /// The lines printed, in order.
    pub lines: Vec<String>,
    /// What `main` yielded, or the first error.
    pub result: Result<Value, EvalError>,
}

/// Runs a program: walks the top-level tree in a fresh world, then
/// calls the function named `main` with the one supplied argument
/// expression, as `sp_run` prescribes.
pub fn run(tree: &Node, arg: Node, fuel: u64) -> (r: RunOutcome)
    ensures
        ({
            let step = sp_run(tree@, arg@, fuel as nat);
            &&& lines_view(r.lines@) == step.st.out
            &&& match (r.result, step.res) {
                (Ok(v), Ok(flow)) => v@ == flow.value(),
                (Err(e1), Err(e2)) => e1 == e2,
                _ => false,
            }
        }),
{
    let mut it = Interp::new();
    let mut glob = Bindings::new();
    proof {
        assert(interp_st(it, glob@) == StateV {
            frame: Map::<Seq<char>, ValueV>::empty(),
            heap: Map::<Seq<char>, ValueV>::empty(),
            out: Seq::<Seq<char>>::empty(),
        });
    }
    match it.eval(tree, &mut glob, fuel) {
        Err(e) => RunOutcome { lines: it.out, result: Err(e) },
        Ok(_) => {
            let args = vec![arg];
            proof {
                assert(nodes_view(args@) =~= seq![args@[0]@]);
            }
            let main_name = String::from_str("main");
            match it.eval_call(&main_name, &args, &mut glob, fuel) {
                Ok(flow) => {
                    let v = match flow {
                        Flow::Normal(x) => x,
                        Flow::Return(x) => x,
                    };
                    RunOutcome { lines: it.out, result: Ok(v) }
                },
                Err(e) => RunOutcome { lines: it.out, result: Err(e) },
            }
        },
    }
}

} // verus!
