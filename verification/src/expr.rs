use crate::env::Env;
use crate::name::Symbol;
use vstd::prelude::*;

verus! {

pub enum Data {
    Nil,
    Int(isize),
    Symbol(Symbol),
    String(String),
    List(Vec<Data>),
    Env(Env<Data>),
}

} // verus!
