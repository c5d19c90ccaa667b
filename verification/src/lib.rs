//! An embeddable lisp interpreter with first-class f-expressions (vexes).
pub mod source;
pub mod name;
pub mod data;
pub mod evaluator;
pub mod syntax;
pub mod literal;
pub mod l1;
pub mod machine;
pub mod builtin;
pub mod heap;
pub mod bindings;
pub mod lexicals;
pub mod module;
pub mod env;
pub mod stack;
pub mod list;
pub mod expr;
pub mod errors;
pub mod map;
pub mod vm;
pub mod crisp;
pub mod parser;

use vstd::prelude::*;

verus! {

pub enum Maybe {
    Yes(),
    No(bool),
}

pub enum Dunno {
    Yes(),
    No(bool),
}

} // verus!
