//! Runtime values.
//!
//! Lists, records, function closures and scopes live in the interpreter's
//! store and values refer to them by number, so that two names bound to the
//! same list see each other's changes. Floating-point numbers are carried as
//! their IEEE-754 bit patterns.
use std::rc::Rc;
use vstd::prelude::*;
use vstd::string::*;
use crate::builtins::{BuiltinFunction, HostValue};
use crate::syntax::Stmt;

verus! {

/// A runtime value.
#[derive(Debug)]
pub enum Value {
    Int(i64),
    /// The IEEE-754 bits of a double.
    Float(u64),
    Bool(bool),
    Str(String),
    Nothing,
    /// A list in the store.
    List(usize),
    /// A record in the store.
    Record(usize),
    Function(FunctionValue),
    /// A tensor the host holds.
    Tensor(usize),
    /// A batch the host holds.
    Batch(usize),
    Host(HostValue),
}

/// A callable value.
#[derive(Debug, Clone, Copy, PartialEq, Eq, Structural)]
pub enum FunctionValue {
    /// A closure in the store.
    User(usize),
    Builtin(BuiltinFunction),
}

/// A function defined by a program, with the scope it closes over.
#[derive(Debug)]
pub struct UserFunction {
    pub name: String,
    pub params: Vec<String>,
    pub body: Rc<Vec<Stmt>>,
    pub env: usize,
}

/// The mathematical view of a value: text as a character sequence.
pub enum ValueView {
    Int(i64),
    Float(u64),
    Bool(bool),
    Str(Seq<char>),
    Nothing,
    List(usize),
    Record(usize),
    Function(FunctionValue),
    Tensor(usize),
    Batch(usize),
    Host(HostValue),
}

impl View for Value {
    type V = ValueView;

    open spec fn view(&self) -> ValueView {
        match self {
            Value::Int(v) => ValueView::Int(*v),
            Value::Float(v) => ValueView::Float(*v),
            Value::Bool(v) => ValueView::Bool(*v),
            Value::Str(s) => ValueView::Str(s@),
            Value::Nothing => ValueView::Nothing,
            Value::List(id) => ValueView::List(*id),
            Value::Record(id) => ValueView::Record(*id),
            Value::Function(f) => ValueView::Function(*f),
            Value::Tensor(id) => ValueView::Tensor(*id),
            Value::Batch(id) => ValueView::Batch(*id),
            Value::Host(h) => ValueView::Host(*h),
        }
    }
}

impl Value {
    /// A copy of the value (the text of a string is duplicated; a list or
    /// record is shared: both copies name the same stored list or record).
    pub fn copy(&self) -> (r: Value)
        ensures
            r@ == self@,
    {
        match self {
            Value::Int(v) => Value::Int(*v),
            Value::Float(v) => Value::Float(*v),
            Value::Bool(v) => Value::Bool(*v),
            Value::Str(s) => Value::Str(s.clone()),
            Value::Nothing => Value::Nothing,
            Value::List(id) => Value::List(*id),
            Value::Record(id) => Value::Record(*id),
            Value::Function(f) => Value::Function(*f),
            Value::Tensor(id) => Value::Tensor(*id),
            Value::Batch(id) => Value::Batch(*id),
            Value::Host(h) => Value::Host(*h),
        }
    }
}

/// The view of a sequence of values.
pub open spec fn values_view(s: Seq<Value>) -> Seq<ValueView> {
    s.map_values(|v: Value| v@)
}

/// The view of a sequence of named values.
pub open spec fn entries_view(s: Seq<(String, Value)>) -> Seq<(Seq<char>, ValueView)> {
    s.map_values(|e: (String, Value)| (e.0@, e.1@))
}

} // verus!
