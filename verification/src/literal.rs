use crate::name::{Symbol, SymbolView};
use crate::syntax::{clone_opt_syntax, opt_syntax_view, Syntax, SyntaxView};
use vstd::prelude::*;

verus! {

/// At this stage, we have stripped out comments and are left with
/// what you would normally think of as lisp code, albeit potentially
/// annotated with its source syntax.
pub enum Literal {
    Int(Int),
    String(Str),
    Symbol(Symbol),
    Quoted(Quoted),
    List(List),
}

pub struct Int {
    pub prev: Option<Syntax>,
    pub value: isize,
}

pub struct Str {
    pub prev: Option<Syntax>,
    pub value: String,
}

pub struct Quoted {
    pub prev: Option<Syntax>,
    pub value: Box<Literal>,
}

pub struct List {
    pub prev: Option<Syntax>,
    pub values: Vec<Literal>,
}

/// The mathematical model of a [`Literal`].
pub enum LiteralView {
    Int(Option<SyntaxView>, isize),
    String(Option<SyntaxView>, Seq<char>),
    Symbol(SymbolView),
    Quoted(Option<SyntaxView>, Box<LiteralView>),
    List(Option<SyntaxView>, Seq<LiteralView>),
}

pub open spec fn literal_view(l: Literal) -> LiteralView
    decreases l,
{
    match l {
        Literal::Int(i) => LiteralView::Int(opt_syntax_view(i.prev), i.value),
        Literal::String(s) => LiteralView::String(opt_syntax_view(s.prev), s.value@),
        Literal::Symbol(s) => LiteralView::Symbol(s@),
        Literal::Quoted(q) => LiteralView::Quoted(
            opt_syntax_view(q.prev),
            Box::new(literal_view(*q.value)),
        ),
        Literal::List(l) => LiteralView::List(
            opt_syntax_view(l.prev),
            Seq::new(
                l.values.len() as nat,
                |i: int|
                    if 0 <= i < l.values.len() {
                        proof {
                            broadcast use vstd::std_specs::vec::axiom_vec_decreases_to_view;
                            assert(decreases_to!(l.values => l.values@[i]));
                        }
                        literal_view(l.values@[i])
                    } else {
                        LiteralView::Int(None, 0)
                    },
            ),
        ),
    }
}

impl View for Literal {
    type V = LiteralView;

    open spec fn view(&self) -> LiteralView {
        literal_view(*self)
    }
}

pub open spec fn literals_view(s: Seq<Literal>) -> Seq<LiteralView> {
    Seq::new(s.len(), |i: int| s[i]@)
}

/// The values of a list, stated over [`literals_view`].
pub proof fn lemma_literal_list_view(l: List)
    ensures
        literal_view(Literal::List(l)) == LiteralView::List(
            opt_syntax_view(l.prev),
            literals_view(l.values@),
        ),
{
    assert(literal_view(Literal::List(l))->List_1 =~= literals_view(l.values@));
}

/// Copies a sequence of literals.
pub fn clone_literals(v: &Vec<Literal>) -> (r: Vec<Literal>)
    ensures
        literals_view(r@) == literals_view(v@),
    decreases v, 1nat,
{
    let mut out: Vec<Literal> = Vec::new();
    let n = v.len();
    for i in 0..n
        invariant
            n == v.len(),
            out.len() == i,
            forall|j: int| 0 <= j < i ==> #[trigger] out@[j]@ == v@[j]@,
    {
        proof {
            broadcast use vstd::std_specs::vec::axiom_vec_index_decreases;
        }
        out.push(clone_literal(&v[i]));
    }
    assert(literals_view(out@) =~= literals_view(v@));
    out
}

/// Copies a literal.
pub fn clone_literal(l: &Literal) -> (r: Literal)
    ensures
        r@ == l@,
    decreases l, 0nat,
{
    match l {
        Literal::Int(i) => Literal::Int(Int { prev: clone_opt_syntax(&i.prev), value: i.value }),
        Literal::String(s) => Literal::String(
            Str { prev: clone_opt_syntax(&s.prev), value: s.value.clone() },
        ),
        Literal::Symbol(s) => Literal::Symbol(s.clone()),
        Literal::Quoted(q) => {
            let inner = clone_literal(&q.value);
            Literal::Quoted(Quoted { prev: clone_opt_syntax(&q.prev), value: Box::new(inner) })
        },
        Literal::List(x) => {
            let values = clone_literals(&x.values);
            let r = List { prev: clone_opt_syntax(&x.prev), values };
            proof {
                lemma_literal_list_view(r);
                lemma_literal_list_view(*x);
            }
            Literal::List(r)
        },
    }
}

impl Clone for Literal {
    fn clone(&self) -> (r: Self)
        ensures
            r@ == self@,
    {
        clone_literal(self)
    }
}

} // verus!
