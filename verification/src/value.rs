//! The tagged values that flow across the operand stack, and the small
//! language of callables that the evaluator can run.

use vstd::prelude::*;

verus! {

/// A suspendable computation: what a thunk wraps and the evaluator runs.
///
/// Each variant is a zero-argument body.  `Force` and `ForceThen` re-enter
/// the force operator on another cell, which is how nested and
/// self-referential demands arise.
#[derive(Debug, PartialEq)]
pub enum Callable {
    /// Produce the given integer.
    Const(i64),
    /// Fail with the given message.
    Fail(String),
    /// Force the cell with the given heap reference and produce its value;
    /// a failure of that force is propagated.
    Force(usize),
    /// Force the cell with the given heap reference, discard its value and
    /// produce the given integer; a failure of that force is propagated.
    ForceThen(usize, i64),
}

/// A tagged operand-stack value: the subset of the machine's value
/// representation that the lazy core touches.
#[derive(Debug, PartialEq)]
pub enum Value {
    /// A small numeric value; `Int(0)` doubles as the zero-argument marker
    /// of the calling convention.
    Int(i64),
    /// A reference to a heap cell, as an index into the heap.
    Lazy(usize),
    /// A callable value.
    Callable(Callable),
    /// An error rendered as text.
    Text(String),
}

impl Clone for Callable {
    fn clone(&self) -> (res: Self)
        ensures
            res == self,
    {
        match self {
            Callable::Const(n) => Callable::Const(*n),
            Callable::Fail(m) => Callable::Fail(m.clone()),
            Callable::Force(r) => Callable::Force(*r),
            Callable::ForceThen(r, n) => Callable::ForceThen(*r, *n),
        }
    }
}

impl Clone for Value {
    fn clone(&self) -> (res: Self)
        ensures
            res == self,
    {
        match self {
            Value::Int(n) => Value::Int(*n),
            Value::Lazy(r) => Value::Lazy(*r),
            Value::Callable(c) => Value::Callable(c.clone()),
            Value::Text(s) => Value::Text(s.clone()),
        }
    }
}

} // verus!
