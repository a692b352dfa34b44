//! The errors an evaluation can fail with.

use vstd::prelude::*;

verus! {

broadcast use vstd::group_vstd_default;

/// Why an evaluation failed.
///
/// Every kind is detected at the node that violates its rule and
/// propagates unchanged through every enclosing evaluation; nothing is
/// swallowed on the way out. `StepLimit` is the one kind that does not
/// come from the program itself: every run is given a finite step
/// budget, and a program that has not finished when the budget runs
/// out fails with it.
#[derive(Clone, Copy, PartialEq, Eq, Structural, Debug)]
pub enum EvalError {
    /// An operand, call target, or property target has the wrong kind.
    TypeError,
    /// An unknown function or class name.
    UndefinedError,
    /// A call, method, or constructor got the wrong number of
    /// arguments.
    ArityError,
    /// An array index is out of range, the indexed value is not an
    /// array, or an assignment index is not a non-negative number
    /// (a negative read index instead saturates to 0).
    IndexError,
    /// A property read on an object that does not have it.
    PropertyError,
    /// A structurally invalid tree shape, such as a class body holding
    /// something besides function definitions.
    UnexpectedNodeError,
    /// The step budget ran out before the program finished.
    StepLimit,
}

/// The diagnostic text for an error kind.
pub open spec fn error_text(e: EvalError) -> Seq<char> {
    match e {
        EvalError::TypeError => "type mismatch"@,
        EvalError::UndefinedError => "undefined name"@,
        EvalError::ArityError => "wrong number of arguments"@,
        EvalError::IndexError => "bad array index"@,
        EvalError::PropertyError => "missing property"@,
        EvalError::UnexpectedNodeError => "unexpected node"@,
        EvalError::StepLimit => "step budget exhausted"@,
    }
}

impl EvalError {
    /// A human-readable message for the error.
    pub fn message(&self) -> (r: &'static str)
        ensures
            r@ == error_text(*self),
    {
        match self {
            EvalError::TypeError => "type mismatch",
            EvalError::UndefinedError => "undefined name",
            EvalError::ArityError => "wrong number of arguments",
            EvalError::IndexError => "bad array index",
            EvalError::PropertyError => "missing property",
            EvalError::UnexpectedNodeError => "unexpected node",
            EvalError::StepLimit => "step budget exhausted",
        }
    }
}

} // verus!
