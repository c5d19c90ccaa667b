use crate::literal::{
    clone_literal, lemma_literal_list_view, literal_view, literals_view, Literal, LiteralView,
};
use crate::name::{Symbol, SymbolView};
use crate::syntax::SyntaxView;
use vstd::prelude::*;

verus! {

/// The Level 1 intermediate representation is a simple rewriting of
/// the source code with no prior knowledge other than the language
/// semantics. In particular, it knows nothing of the environment in
/// which it is compiled, so we can't identify functions or special
/// forms yet.
///
/// What we can do is identify the order of operations we must perform
/// to evaluate it, which will make running it a bit easier. We only
/// need to do this for the top level, indeed can only do this for the
/// top level without an environment!
pub enum L1<T> {
    /// No more code in the file.
    EndOfFile,
    /// Looks up a lexical into the accumulator.
    Lookup(Lookup<T>),
    /// Sets a value into the accumulator.
    Constant(Constant<T>),
    /// Calls the vex in the accumulator with the list that called it.
    Call(Call<T>),
}

/// A lookup of a symbol in the lexical environment.
pub struct Lookup<T> {
    pub name: Symbol,
    pub next: Box<L1<T>>,
}

/// Loading a constant into the accumulator
pub struct Constant<T> {
    pub value: T,
    pub next: Box<L1<T>>,
}

/// Calling a vex in the accumulator with the list that called it
pub struct Call<T> {
    pub list: T,
    pub next: Box<L1<T>>,
}

/// The mathematical model of an [`L1`] program over literals.
pub enum L1View {
    EndOfFile,
    Lookup(SymbolView, Box<L1View>),
    Constant(LiteralView, Box<L1View>),
    Call(LiteralView, Box<L1View>),
}

pub open spec fn l1_view(p: L1<Literal>) -> L1View
    decreases p,
{
    match p {
        L1::EndOfFile => L1View::EndOfFile,
        L1::Lookup(l) => L1View::Lookup(l.name@, Box::new(l1_view(*l.next))),
        L1::Constant(c) => L1View::Constant(c.value@, Box::new(l1_view(*c.next))),
        L1::Call(c) => L1View::Call(c.list@, Box::new(l1_view(*c.next))),
    }
}

/// What a literal compiles to, ahead of `next`: constants load themselves,
/// quoted values load what they quote, symbols are looked up, and a
/// non-empty list evaluates its head and then calls it with the list.
pub open spec fn literal_to_l1_spec(value: LiteralView, next: L1View) -> L1View
    decreases value,
{
    match value {
        LiteralView::Int(_, _) => L1View::Constant(value, Box::new(next)),
        LiteralView::String(_, _) => L1View::Constant(value, Box::new(next)),
        LiteralView::Symbol(name) => L1View::Lookup(name, Box::new(next)),
        LiteralView::Quoted(_, q) => L1View::Constant(*q, Box::new(next)),
        LiteralView::List(_, values) => if values.len() == 0 {
            L1View::Constant(value, Box::new(next))
        } else {
            literal_to_l1_spec(values[0], L1View::Call(value, Box::new(next)))
        },
    }
}

/// Given a literal and a next instruction, compile the literal to the
/// level 1 intermediate representation.
pub fn literal_to_l1(value: Literal, next: L1<Literal>) -> (r: Result<L1<Literal>, ()>)
    ensures
        r matches Ok(p) && l1_view(p) == literal_to_l1_spec(value@, l1_view(next)),
    decreases value@,
{
    match value {
        // Start off with constants
        Literal::Int(_) => Ok(L1::Constant(Constant { value, next: Box::new(next) })),
        Literal::String(_) => Ok(L1::Constant(Constant { value, next: Box::new(next) })),
        // Symbols resolve by lookup
        Literal::Symbol(name) => Ok(L1::Lookup(Lookup { name, next: Box::new(next) })),
        // Quoted values get unquoted
        Literal::Quoted(q) => Ok(L1::Constant(Constant { value: *q.value, next: Box::new(next) })),
        // Lists are either constants if empty or else calls
        Literal::List(l) => {
            proof {
                lemma_literal_list_view(l);
            }
            if l.values.len() == 0 {
                Ok(L1::Constant(Constant { value: Literal::List(l), next: Box::new(next) }))
            } else {
                let head = clone_literal(&l.values[0]);
                let ghost lv = Literal::List(l)@;
                assert(head@ == lv->List_1[0]);
                let next = L1::Call(Call { list: Literal::List(l), next: Box::new(next) });
                literal_to_l1(head, next)
            }
        },
    }
}

} // verus!

verus! {

/// Whether the program `p` runs into `next` once its own instructions are done.
pub open spec fn l1_ends_with(p: L1View, next: L1View) -> bool
    decreases p,
{
    if p == next {
        true
    } else {
        match p {
            L1View::EndOfFile => false,
            L1View::Lookup(_, n) => l1_ends_with(*n, next),
            L1View::Constant(_, n) => l1_ends_with(*n, next),
            L1View::Call(_, n) => l1_ends_with(*n, next),
        }
    }
}

/// Continuing after a program that continues after `mid`, which itself
/// continues after `next`, continues after `next`.
proof fn lemma_l1_ends_with_trans(p: L1View, mid: L1View, next: L1View)
    requires
        l1_ends_with(p, mid),
        l1_ends_with(mid, next),
    ensures
        l1_ends_with(p, next),
    decreases p,
{
    if p != mid {
        match p {
            L1View::EndOfFile => {},
            L1View::Lookup(_, n) => lemma_l1_ends_with_trans(*n, mid, next),
            L1View::Constant(_, n) => lemma_l1_ends_with_trans(*n, mid, next),
            L1View::Call(_, n) => lemma_l1_ends_with_trans(*n, mid, next),
        }
    }
}

/// Compiling a literal only puts instructions in front of the next
/// instruction: the compiled program always carries on into `next`.
pub proof fn law_literal_to_l1_continues(value: LiteralView, next: L1View)
    ensures
        l1_ends_with(literal_to_l1_spec(value, next), next),
    decreases value,
{
    reveal_with_fuel(l1_ends_with, 2);
    match value {
        LiteralView::List(_, values) => if values.len() > 0 {
            let call = L1View::Call(value, Box::new(next));
            law_literal_to_l1_continues(values[0], call);
            assert(l1_ends_with(call, next));
            lemma_l1_ends_with_trans(literal_to_l1_spec(values[0], call), call, next);
        },
        _ => {},
    }
}

/// A non-empty list is a call: its program is that of its head, run ahead
/// of a call of the whole list, which then carries on into `next`.
pub proof fn law_list_literal_is_a_call(prev: Option<SyntaxView>, values: Seq<LiteralView>, next: L1View)
    requires
        values.len() > 0,
    ensures
        ({
            let list = LiteralView::List(prev, values);
            let call = L1View::Call(list, Box::new(next));
            &&& literal_to_l1_spec(list, next) == literal_to_l1_spec(values[0], call)
            &&& l1_ends_with(literal_to_l1_spec(list, next), call)
        }),
{
    let list = LiteralView::List(prev, values);
    let call = L1View::Call(list, Box::new(next));
    law_literal_to_l1_continues(values[0], call);
}

/// A quoted literal loads what it quotes, whatever that is, and carries on
/// into `next`.
pub proof fn law_quoted_literal_loads_its_value(prev: Option<SyntaxView>, q: LiteralView, next: L1View)
    ensures
        literal_to_l1_spec(LiteralView::Quoted(prev, Box::new(q)), next) == L1View::Constant(
            q,
            Box::new(next),
        ),
{
}

/// Numbers and strings load themselves, and symbols are looked up by
/// name, each ahead of `next`.
pub proof fn law_atoms_compile_to_one_step(lit: LiteralView, next: L1View)
    ensures
        (lit is Int || lit is String) ==> literal_to_l1_spec(lit, next) == L1View::Constant(
            lit,
            Box::new(next),
        ),
        lit matches LiteralView::Symbol(name) ==> literal_to_l1_spec(lit, next) == L1View::Lookup(
            name,
            Box::new(next),
        ),
{
}

} // verus!
