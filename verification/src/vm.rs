use crate::name::Symbol;
use vstd::prelude::*;

verus! {

pub struct TaskRef {}

pub struct Env {}

pub enum Op<T> {
    Halt,
    LoadLexical(Symbol, T),
    Const(T, T),
    Closure(Env, T, T),
    Check(T, T),
    StoreLexical(Symbol, T),
    Continuation(T),
    Continue(T, Symbol),
    Frame(T, T),
    Arg(T),
    Apply,
    Return,
}

} // verus!
