//! A tree-walking interpreter for the Jieum teaching language.
use vstd::prelude::*;

pub mod syntax;
pub mod text;
pub mod builtins;
pub mod error;
pub mod value;
pub mod store;
pub mod canvas;
pub mod host;
pub mod arith;
pub mod torch;
pub mod interp;
pub mod ops;
pub mod eval;
pub mod calls;
pub mod fields;
pub mod messages;
pub mod learning;
pub mod run;
pub mod mnist;
pub mod laws;
pub mod operator_laws;

verus! {
}
