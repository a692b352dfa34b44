//! Laws of the language, stated and proved against the
//! specification-level interpreter.

use vstd::prelude::*;
use crate::ast::ArithOp;
use crate::ast::CmpOp;
use crate::ast::NodeV;
use crate::errors::EvalError;
use crate::semantics::FlowV;
use crate::semantics::StateV;
use crate::semantics::StepV;
use crate::semantics::arith_num;
use crate::semantics::cmp_result;
use crate::semantics::set_index_chain;
use crate::semantics::sp_block;
use crate::semantics::sp_call;
use crate::semantics::sp_eval;
use crate::semantics::sp_eval_list;
use crate::semantics::sp_method;
use crate::semantics::sp_new;
use crate::value::ValueV;
use crate::value::props_get;

verus! {

broadcast use vstd::group_vstd_default;

/// Law: an arithmetic expression on two numeric literals yields the
/// machine arithmetic on those numbers — wrapping 64-bit addition,
/// subtraction and multiplication, and truncated division — and
/// leaves the state untouched.
pub proof fn lemma_arith_on_literals(op: ArithOp, a: i64, b: i64, st: StateV, fuel: nat)
    requires
        fuel >= 2,
    ensures
        (sp_eval(
            NodeV::Arith(op, Box::new(NodeV::NumLit(a)), Box::new(NodeV::NumLit(b))),
            st,
            fuel,
        ) == StepV { res: Ok(FlowV::Normal(ValueV::Number(arith_num(op, a, b)))), st }),
{
    let f = (fuel - 1) as nat;
    assert(sp_eval(NodeV::NumLit(a), st, f) == StepV {
        res: Ok(FlowV::Normal(ValueV::Number(a))),
        st,
    });
    assert(sp_eval(NodeV::NumLit(b), st, f) == StepV {
        res: Ok(FlowV::Normal(ValueV::Number(b))),
        st,
    });
    assert(sp_eval(
        NodeV::Arith(op, Box::new(NodeV::NumLit(a)), Box::new(NodeV::NumLit(b))),
        st,
        fuel,
    ) == StepV { res: Ok(FlowV::Normal(ValueV::Number(arith_num(op, a, b)))), st });
}

/// Law: comparing a number and a string with `==` yields the boolean
/// false — never an error — and leaves the state untouched.
pub proof fn lemma_number_string_equality(x: i64, s: Seq<char>, st: StateV, fuel: nat)
    requires
        fuel >= 2,
    ensures
        (sp_eval(
            NodeV::Cmp(
                CmpOp::Eq,
                Box::new(NodeV::NumLit(x)),
                Box::new(NodeV::StrLit(s)),
            ),
            st,
            fuel,
        ) == StepV { res: Ok(FlowV::Normal(ValueV::Bool(false))), st }),
{
    let f = (fuel - 1) as nat;
    assert(sp_eval(NodeV::NumLit(x), st, f) == StepV {
        res: Ok(FlowV::Normal(ValueV::Number(x))),
        st,
    });
    assert(sp_eval(NodeV::StrLit(s), st, f) == StepV {
        res: Ok(FlowV::Normal(ValueV::Str(s))),
        st,
    });
    assert(!cmp_result(CmpOp::Eq, ValueV::Number(x), ValueV::Str(s)));
    assert(sp_eval(
        NodeV::Cmp(CmpOp::Eq, Box::new(NodeV::NumLit(x)), Box::new(NodeV::StrLit(s))),
        st,
        fuel,
    ) == StepV { res: Ok(FlowV::Normal(ValueV::Bool(false))), st });
}

/// Law: constructing a class whose constructor declares one implicit
/// and `n` further parameters fails with the arity error whenever the
/// argument count differs from `n`, before any argument is evaluated.
pub proof fn lemma_construct_arity_mismatch(
    c: Seq<char>,
    args: Seq<NodeV>,
    ps: Seq<(Seq<char>, ValueV)>,
    iname: Seq<char>,
    ips: Seq<Seq<char>>,
    body: Box<NodeV>,
    st: StateV,
    fuel: nat,
)
    requires
        fuel >= 1,
        st.heap.contains_key(c),
        (st.heap[c] == ValueV::Object(ps)),
        (props_get(ps, "~init"@) == Some(ValueV::Function(iname, ips, body))),
        args.len() as int != ips.len() as int - 1,
    ensures
        (sp_new(c, args, st, fuel) == StepV { res: Err(EvalError::ArityError), st }),
{
    assert(sp_new(c, args, st, fuel) == StepV { res: Err(EvalError::ArityError), st });
}

/// Law (value semantics): a method call on a variable, with no
/// arguments, leaves the caller's whole frame unchanged — whatever
/// the method does to `self`, the receiver variable's own binding is
/// untouched. This holds for every outcome of the call.
pub proof fn lemma_method_keeps_caller_frame(
    o: Seq<char>,
    m: Seq<char>,
    st: StateV,
    fuel: nat,
)
    requires
        fuel >= 2,
    ensures
        (sp_method(NodeV::Name(o), m, Seq::empty(), st, fuel).st.frame == st.frame),
{
    let f = (fuel - 1) as nat;
    assert(sp_eval(NodeV::Name(o), st, f).st == st);
    assert(sp_eval_list(Seq::<NodeV>::empty(), true, st, f).st == st);
}

/// Law: assigning through one array index replaces exactly that slot
/// when the index is in bounds, so a subsequent read of the slot sees
/// the assigned value; an out-of-bounds index fails with the index
/// error, as does indexing anything that is not an array.
pub proof fn lemma_index_assignment(es: Seq<ValueV>, i: int, v: ValueV)
    ensures
        (0 <= i < es.len() ==> set_index_chain(ValueV::Array(es), seq![i], v) == Ok::<
            ValueV,
            EvalError,
        >(ValueV::Array(es.update(i, v)))),
        (0 <= i < es.len() ==> es.update(i, v)[i] == v),
        (!(0 <= i < es.len()) ==> set_index_chain(ValueV::Array(es), seq![i], v) == Err::<
            ValueV,
            EvalError,
        >(EvalError::IndexError)),
        (forall|w: ValueV| !(w is Array) ==> set_index_chain(w, seq![i], v) == Err::<
            ValueV,
            EvalError,
        >(EvalError::IndexError)),
{
    assert forall|w: ValueV| !(w is Array) implies set_index_chain(w, seq![i], v) == Err::<
        ValueV,
        EvalError,
    >(EvalError::IndexError) by {
        assert(set_index_chain(w, seq![i], v) == Err::<ValueV, EvalError>(
            EvalError::IndexError,
        ));
    }
}

/// Law: a `return` standing as a block's statement stops the block
/// and hands the returned value outward.
pub proof fn lemma_block_return(e: NodeV, st: StateV, v: ValueV, fuel: nat)
    requires
        fuel >= 2,
        (sp_eval(e, st, (fuel - 2) as nat).res == Ok::<FlowV, EvalError>(FlowV::Normal(v))),
    ensures
        (sp_block(seq![NodeV::Return(Box::new(e))], st, fuel).res == Ok::<FlowV, EvalError>(
            FlowV::Return(v),
        )),
{
    let f = (fuel - 1) as nat;
    assert(seq![NodeV::Return(Box::new(e))][0] == NodeV::Return(Box::new(e)));
    assert(sp_eval(NodeV::Return(Box::new(e)), st, f) == ({
        let s1 = sp_eval(e, st, (f - 1) as nat);
        match s1.res {
            Ok(flow) => StepV { res: Ok(FlowV::Return(flow.value())), st: s1.st },
            _ => s1,
        }
    }));
}

/// Law: a function whose body evaluation ends in a `return` yields
/// the returned value as the call's own result — the `return` unwinds
/// exactly to the function boundary.
pub proof fn lemma_return_is_call_result(
    fname: Seq<char>,
    gname: Seq<char>,
    body: Box<NodeV>,
    st: StateV,
    v: ValueV,
    fuel: nat,
)
    requires
        fuel >= 2,
        fname != "print"@,
        st.heap.contains_key(fname),
        (st.heap[fname] == ValueV::Function(gname, Seq::<Seq<char>>::empty(), body)),
        (sp_eval(
            *body,
            StateV { frame: Map::empty(), heap: st.heap, out: st.out },
            (fuel - 1) as nat,
        ).res == Ok::<FlowV, EvalError>(FlowV::Return(v))),
    ensures
        (sp_call(fname, Seq::empty(), st, fuel).res == Ok::<FlowV, EvalError>(
            FlowV::Normal(v),
        )),
{
    let f = (fuel - 1) as nat;
    assert(sp_eval_list(Seq::<NodeV>::empty(), true, st, f) ==
        crate::semantics::ListStepV {
        res: crate::semantics::ListRes::Vals(Seq::empty()),
        st,
    });
    assert(crate::semantics::bind_list(
        Seq::<Seq<char>>::empty(),
        Seq::<ValueV>::empty(),
        Map::<Seq<char>, ValueV>::empty(),
    ) == Map::<Seq<char>, ValueV>::empty());
    assert(StateV { frame: Map::<Seq<char>, ValueV>::empty(), ..st } == StateV {
        frame: Map::empty(),
        heap: st.heap,
        out: st.out,
    });
}

/// Law: assigning to an in-bounds array index succeeds, and a
/// subsequent read of the same index in the same frame sees the
/// assigned value.
pub proof fn lemma_index_write_then_read(
    x: Seq<char>,
    es: Seq<ValueV>,
    i: i64,
    w: i64,
    st: StateV,
    fuel: nat,
)
    requires
        fuel >= 4,
        st.frame.contains_key(x),
        (st.frame[x] == ValueV::Array(es)),
        0 <= i < es.len(),
    ensures
        ({
            let s1 = sp_eval(
                NodeV::IndexAssign(x, seq![NodeV::NumLit(i)], Box::new(NodeV::NumLit(w))),
                st,
                fuel,
            );
            &&& s1.res == Ok::<FlowV, EvalError>(FlowV::Normal(ValueV::Number(w)))
            &&& sp_eval(
                NodeV::Index(Box::new(NodeV::Name(x)), Box::new(NodeV::NumLit(i))),
                s1.st,
                fuel,
            ).res == Ok::<FlowV, EvalError>(FlowV::Normal(ValueV::Number(w)))
        }),
{
    let f = (fuel - 1) as nat;
    let idx_nodes = seq![NodeV::NumLit(i)];
    assert(sp_eval(NodeV::NumLit(i), st, (f - 1) as nat) == StepV {
        res: Ok(FlowV::Normal(ValueV::Number(i))),
        st,
    });
    assert(idx_nodes.subrange(1, 1) =~= Seq::<NodeV>::empty());
    assert(sp_eval_list(Seq::<NodeV>::empty(), false, st, (f - 1) as nat) ==
        crate::semantics::ListStepV {
        res: crate::semantics::ListRes::Vals(Seq::empty()),
        st,
    });
    assert(idx_nodes[0] == NodeV::NumLit(i));
    assert(sp_eval_list(idx_nodes, false, st, f) == crate::semantics::ListStepV {
        res: crate::semantics::ListRes::Vals(seq![ValueV::Number(i)] + Seq::empty()),
        st,
    });
    let ivs = seq![ValueV::Number(i)] + Seq::<ValueV>::empty();
    assert(ivs =~= seq![ValueV::Number(i)]);
    assert(sp_eval(NodeV::NumLit(w), st, f) == StepV {
        res: Ok(FlowV::Normal(ValueV::Number(w))),
        st,
    });
    assert(ivs.subrange(1, 1) =~= Seq::<ValueV>::empty());
    assert(crate::semantics::to_indices(Seq::<ValueV>::empty()) == Some(Seq::<int>::empty()));
    assert(crate::semantics::to_indices(ivs) == Some(seq![i as int] + Seq::<int>::empty()));
    let ii = seq![i as int] + Seq::<int>::empty();
    assert(ii =~= seq![i as int]);
    lemma_index_assignment(es, i as int, ValueV::Number(w));
    assert(crate::semantics::frame_read(st, x) == ValueV::Array(es));
    let st1 = StateV {
        frame: st.frame.insert(x, ValueV::Array(es.update(i as int, ValueV::Number(w)))),
        ..st
    };
    assert(sp_eval(
        NodeV::IndexAssign(x, idx_nodes, Box::new(NodeV::NumLit(w))),
        st,
        fuel,
    ) == StepV { res: Ok(FlowV::Normal(ValueV::Number(w))), st: st1 });
    assert(crate::semantics::frame_read(st1, x) == ValueV::Array(
        es.update(i as int, ValueV::Number(w)),
    ));
    assert(sp_eval(NodeV::Name(x), st1, f) == StepV {
        res: Ok(FlowV::Normal(ValueV::Array(es.update(i as int, ValueV::Number(w))))),
        st: st1,
    });
    assert(sp_eval(NodeV::NumLit(i), st1, f) == StepV {
        res: Ok(FlowV::Normal(ValueV::Number(i))),
        st: st1,
    });
    assert(sp_eval(
        NodeV::Index(Box::new(NodeV::Name(x)), Box::new(NodeV::NumLit(i))),
        st1,
        fuel,
    ).res == Ok::<FlowV, EvalError>(FlowV::Normal(
        es.update(i as int, ValueV::Number(w))[i as int],
    )));
}

/// Law: reading an array at a negative index reads element 0 — the
/// read index saturates from below, as the original cast did.
pub proof fn lemma_negative_read_saturates(
    x: Seq<char>,
    es: Seq<ValueV>,
    i: i64,
    st: StateV,
    fuel: nat,
)
    requires
        fuel >= 2,
        st.frame.contains_key(x),
        (st.frame[x] == ValueV::Array(es)),
        es.len() > 0,
        i < 0,
    ensures
        (sp_eval(
            NodeV::Index(Box::new(NodeV::Name(x)), Box::new(NodeV::NumLit(i))),
            st,
            fuel,
        ) == StepV { res: Ok(FlowV::Normal(es[0])), st }),
{
    let f = (fuel - 1) as nat;
    assert(sp_eval(NodeV::Name(x), st, f) == StepV {
        res: Ok(FlowV::Normal(ValueV::Array(es))),
        st,
    });
    assert(sp_eval(NodeV::NumLit(i), st, f) == StepV {
        res: Ok(FlowV::Normal(ValueV::Number(i))),
        st,
    });
    assert(sp_eval(
        NodeV::Index(Box::new(NodeV::Name(x)), Box::new(NodeV::NumLit(i))),
        st,
        fuel,
    ) == StepV { res: Ok(FlowV::Normal(es[0])), st });
}

/// Law: constructing with the matching argument count never fails
/// with the arity error of the constructor itself — shown here for a
/// constructor that declares only the implicit receiver, called with
/// no arguments: the outcome is exactly the constructor body's, the
/// final `self` on success and the body's own error otherwise.
pub proof fn lemma_construct_arity_match(
    c: Seq<char>,
    ps: Seq<(Seq<char>, ValueV)>,
    iname: Seq<char>,
    ips: Seq<Seq<char>>,
    body: Box<NodeV>,
    st: StateV,
    fuel: nat,
)
    requires
        fuel >= 2,
        st.heap.contains_key(c),
        (st.heap[c] == ValueV::Object(ps)),
        (props_get(ps, "~init"@) == Some(ValueV::Function(iname, ips, body))),
        ips.len() == 1,
    ensures
        ({
            let callee = StateV {
                frame: Map::empty().insert("self"@, ValueV::Object(ps)),
                heap: st.heap,
                out: st.out,
            };
            let s2 = sp_eval(*body, callee, (fuel - 1) as nat);
            sp_new(c, Seq::empty(), st, fuel).res == match s2.res {
                Ok(_) => Ok(FlowV::Normal(crate::semantics::frame_read(s2.st, "self"@))),
                Err(e) => Err(e),
            }
        }),
{
    let f = (fuel - 1) as nat;
    assert(sp_eval_list(Seq::<NodeV>::empty(), true, st, f) ==
        crate::semantics::ListStepV {
        res: crate::semantics::ListRes::Vals(Seq::empty()),
        st,
    });
    let base = Map::<Seq<char>, ValueV>::empty().insert("self"@, ValueV::Object(ps));
    assert(ips.subrange(1, 1) =~= Seq::<Seq<char>>::empty());
    assert(crate::semantics::bind_list(
        Seq::<Seq<char>>::empty(),
        Seq::<ValueV>::empty(),
        base,
    ) == base);
    assert(StateV { frame: base, ..st } == StateV {
        frame: base,
        heap: st.heap,
        out: st.out,
    });
}

} // verus!
