use crate::heap::Gc;
use vstd::prelude::*;

verus! {

/// The dynamic extent of the program.
pub struct Dynamic<T> {
    pub frame: Trace<T>,
    pub prev: Option<Gc<Dynamic<T>>>,
}

pub enum Trace<T> {
    /// Evaluate an expression.
    Eval(EvalFrame<T>),
    /// Call with arguments (non-empty list)
    Call(CallFrame<T>),
}

pub struct CallFrame<T> {
    pub call: Gc<T>,
}

pub struct EvalFrame<T> {
    pub expr: Gc<T>,
}

} // verus!
