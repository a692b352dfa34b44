//! A tree-walking evaluator for a small dynamically typed scripting
//! language with variables, arithmetic, control flow, user functions,
//! arrays, and a lightweight class/object model.
//!
//! The language's meaning is given by a pure specification-level
//! interpreter (`semantics`); the executable evaluator (`eval`) is
//! proved to return exactly what the specification prescribes.

pub mod ast;
pub mod bindings;
pub mod errors;
pub mod eval;
pub mod laws;
pub mod numfmt;
pub mod semantics;
pub mod valops;
pub mod value;
