use crate::literal::{List, Literal, LiteralView};
use crate::name::{Symbol, SymbolView};
use crate::syntax::SyntaxView;
use std::rc::Rc;
use vstd::prelude::*;

verus! {

/// The Level 1 intermediate representation is a simple rewriting of
/// the source code with no prior knowledge other than the language
/// semantics. In particular, it knows nothing of the environment in
/// which it is compiled.
pub enum L1<T> {
    /// End crisplet, returning accumulator which is probably an error.
    Halt,
    /// Looks up a lexical into the accumulator, sets next expression
    LookupLexical(LookupLexical<T>),
    /// Sets a value into the accumulator, sets next expression
    Constant(Constant<T>),
    /// If the accumulator is truthy, set next expr to this, else this.
    If(If<T>),
    Assign(Symbol, T, Rc<L1<T>>),
    /// Return the accumulator to the caller.
    Return,
    /// Evaluates the expression
    Eval(T, Rc<L1<T>>),
}

pub struct LookupLexical<T> {
    pub name: Symbol,
    pub next: Rc<L1<T>>,
}

pub struct Constant<T> {
    pub value: T,
    pub next: Rc<L1<T>>,
}

pub struct If<T> {
    pub when_true: Rc<L1<T>>,
    pub when_false: Rc<L1<T>>,
}

pub struct State<T> {
    pub acc: Option<T>,
}

pub enum Scope {
    /// Top level in the file
    File,
    ListHead,
}

pub struct L1ify<I> {
    inner: I,
}

/// The mathematical model of an [`L1`] program over literals.
pub enum MachineView {
    Halt,
    LookupLexical(SymbolView, Box<MachineView>),
    Constant(LiteralView, Box<MachineView>),
    If(Box<MachineView>, Box<MachineView>),
    Assign(SymbolView, LiteralView, Box<MachineView>),
    Return,
    Eval(LiteralView, Box<MachineView>),
}

pub open spec fn machine_view(p: L1<Literal>) -> MachineView
    decreases p,
{
    match p {
        L1::Halt => MachineView::Halt,
        L1::LookupLexical(l) => MachineView::LookupLexical(
            l.name@,
            Box::new(machine_view(*l.next)),
        ),
        L1::Constant(c) => MachineView::Constant(c.value@, Box::new(machine_view(*c.next))),
        L1::If(i) => MachineView::If(
            Box::new(machine_view(*i.when_true)),
            Box::new(machine_view(*i.when_false)),
        ),
        L1::Assign(s, v, n) => MachineView::Assign(s@, v@, Box::new(machine_view(*n))),
        L1::Return => MachineView::Return,
        L1::Eval(v, n) => MachineView::Eval(v@, Box::new(machine_view(*n))),
    }
}

fn ret<T>() -> (r: Rc<L1<T>>)
    ensures
        *r == L1::<T>::Return,
{
    Rc::new(L1::Return)
}

/// Whether `compile_l1` handles a literal: integers, quoted values and the
/// empty list. Symbols, strings and calls are not compiled yet.
pub open spec fn compilable(lit: LiteralView) -> bool {
    match lit {
        LiteralView::Int(_, _) => true,
        LiteralView::Quoted(_, _) => true,
        LiteralView::List(_, values) => values.len() == 0,
        _ => false,
    }
}

/// What the compiled program ends with: loading the empty list, then returning.
pub open spec fn compile_l1_end() -> MachineView {
    MachineView::Constant(
        LiteralView::List(None, Seq::empty()),
        Box::new(MachineView::Return),
    )
}

/// Puts one literal in front of the program `next`: a quoted literal loads
/// what it quotes, any other literal loads itself, and the program goes on
/// with `next`.
pub open spec fn compile_l1_step(lit: LiteralView, next: MachineView) -> MachineView {
    match lit {
        LiteralView::Quoted(_, q) => MachineView::Constant(*q, Box::new(next)),
        _ => MachineView::Constant(lit, Box::new(next)),
    }
}

/// The program for a body of literals, each in front of the program for
/// the ones after it.
pub open spec fn compile_l1_spec(lits: Seq<LiteralView>) -> MachineView
    decreases lits.len(),
{
    if lits.len() == 0 {
        compile_l1_end()
    } else {
        compile_l1_step(lits[0], compile_l1_spec(lits.drop_first()))
    }
}

/// Every form of a body is compiled: the program for a form followed by
/// more forms is that form loaded in front of the program for the rest.
pub proof fn law_compile_l1_keeps_every_form(lit: LiteralView, rest: Seq<LiteralView>)
    ensures
        compile_l1_spec(seq![lit] + rest) == compile_l1_step(lit, compile_l1_spec(rest)),
{
    assert((seq![lit] + rest).drop_first() =~= rest);
}

/// A quoted form loads what it quotes, whatever it quotes, and the program
/// goes on with the rest of the body.
pub proof fn law_compile_l1_unquotes(
    prev: Option<SyntaxView>,
    q: LiteralView,
    rest: Seq<LiteralView>,
)
    ensures
        compile_l1_spec(seq![LiteralView::Quoted(prev, Box::new(q))] + rest)
            == MachineView::Constant(q, Box::new(compile_l1_spec(rest))),
{
    assert((seq![LiteralView::Quoted(prev, Box::new(q))] + rest).drop_first() =~= rest);
}

/// Any other form loads itself, and the program goes on with the rest of
/// the body.
pub proof fn law_compile_l1_loads_other_forms(lit: LiteralView, rest: Seq<LiteralView>)
    requires
        !(lit is Quoted),
    ensures
        compile_l1_spec(seq![lit] + rest) == MachineView::Constant(lit, Box::new(compile_l1_spec(rest))),
{
    assert((seq![lit] + rest).drop_first() =~= rest);
}

/// An empty body loads the empty list and returns it.
pub proof fn law_compile_l1_empty_body()
    ensures
        compile_l1_spec(Seq::empty()) == MachineView::Constant(
            LiteralView::List(None, Seq::empty()),
            Box::new(MachineView::Return),
        ),
{
}

/// Given some forms, assumed to represent the body of a function (or
/// a file), compile to the level 1 intermediate representation.
pub fn compile_l1(lits: Vec<Literal>) -> (r: Result<L1<Literal>, ()>)
    requires
        forall|i: int| 0 <= i < lits.len() ==> compilable(#[trigger] lits@[i]@),
    ensures
        r matches Ok(p) && machine_view(p) == compile_l1_spec(
            Seq::new(lits.len() as nat, |i: int| lits@[i]@),
        ),
{
    let ghost all = Seq::new(lits.len() as nat, |i: int| lits@[i]@);
    // End by returning the empty list because we don't have nil yet
    let empty = List { values: Vec::new(), prev: None };
    proof {
        crate::literal::lemma_literal_list_view(empty);
        assert(crate::literal::literals_view(empty.values@) =~= Seq::<LiteralView>::empty());
    }
    let value = Literal::List(empty);
    let mut next = L1::Constant(Constant { value, next: ret() });
    assert(value@ == LiteralView::List(None, Seq::empty()));
    assert(machine_view(L1::<Literal>::Return) == MachineView::Return);
    assert(machine_view(next) == compile_l1_end());
    // We're actually going to iterate in reverse because then it's just a simple reduction
    let mut lits = lits;
    assert(all.skip(all.len() as int) =~= Seq::<LiteralView>::empty());
    while lits.len() > 0
        invariant
            lits@.len() <= all.len(),
            forall|i: int| 0 <= i < lits.len() ==> lits@[i]@ == all[i],
            forall|i: int| 0 <= i < all.len() ==> compilable(#[trigger] all[i]),
            machine_view(next) == compile_l1_spec(all.skip(lits@.len() as int)),
        decreases lits.len(),
    {
        let ghost k = lits@.len() - 1;
        let lit = lits.pop().unwrap();
        assert(lit@ == all[k]);
        assert(all.skip(k).drop_first() =~= all.skip(k + 1));
        let ghost tail = machine_view(next);
        let rest = Rc::new(next);
        assert(machine_view(*rest) == tail);
        assert(machine_view(L1::<Literal>::Return) == MachineView::Return);
        next = match lit {
            Literal::Int(_) => L1::Constant(Constant { value: lit, next: rest }),
            Literal::Quoted(q) => L1::Constant(Constant { value: *q.value, next: rest }),
            Literal::List(l) => {
                assert(l.values.len() == 0) by {
                    crate::literal::lemma_literal_list_view(l);
                }
                L1::Constant(Constant { value: Literal::List(l), next: rest })
            },
            _ => {
                assert(false);
                L1::Halt
            },
        };
        assert(machine_view(next) == compile_l1_step(all[k], tail));
    }
    assert(all.skip(0) =~= all);
    Ok(next)
}

} // verus!
