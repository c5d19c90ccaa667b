use crate::source::{Span, SpanView};
use vstd::prelude::*;

verus! {

pub enum Inert {
    LineComment(LineComment),
}

/// This is the raw syntax read from a file. It includes line comments
/// as well as code.
pub enum Syntax {
    LineComment(LineComment),
    Int(Int),
    String(Str),
    Symbol(Symbol),
    List(List),
}

pub struct LineComment {
    pub delim: String,
    pub delim_span: Span,
    pub data_span: Span,
    pub data: String,
}

pub struct Quote {
    pub span: Span,
}

pub struct Int {
    pub span: Span,
    pub value: isize,
}

pub struct Str {
    pub open: Span,
    pub close: Span,
    pub raw: String,
    pub span: Span,
}

pub struct Symbol {
    pub val: String,
    pub span: Span,
}

pub struct List {
    pub open: Span,
    pub close: Span,
    pub items: Vec<Syntax>,
}

/// The mathematical model of a [`Syntax`].
pub enum SyntaxView {
    LineComment(Seq<char>, SpanView, SpanView, Seq<char>),
    Int(SpanView, isize),
    String(SpanView, SpanView, Seq<char>, SpanView),
    Symbol(Seq<char>, SpanView),
    List(SpanView, SpanView, Seq<SyntaxView>),
}

pub open spec fn syntax_view(s: Syntax) -> SyntaxView
    decreases s,
{
    match s {
        Syntax::LineComment(c) => SyntaxView::LineComment(
            c.delim@,
            c.delim_span@,
            c.data_span@,
            c.data@,
        ),
        Syntax::Int(i) => SyntaxView::Int(i.span@, i.value),
        Syntax::String(t) => SyntaxView::String(t.open@, t.close@, t.raw@, t.span@),
        Syntax::Symbol(y) => SyntaxView::Symbol(y.val@, y.span@),
        Syntax::List(l) => SyntaxView::List(
            l.open@,
            l.close@,
            Seq::new(
                l.items.len() as nat,
                |i: int|
                    if 0 <= i < l.items.len() {
                        proof {
                            broadcast use vstd::std_specs::vec::axiom_vec_decreases_to_view;
                            assert(decreases_to!(l.items => l.items@[i]));
                        }
                        syntax_view(l.items@[i])
                    } else {
                        SyntaxView::Int(l.open@, 0)
                    },
            ),
        ),
    }
}

impl View for Syntax {
    type V = SyntaxView;

    open spec fn view(&self) -> SyntaxView {
        syntax_view(*self)
    }
}

pub open spec fn syntaxes_view(s: Seq<Syntax>) -> Seq<SyntaxView> {
    Seq::new(s.len(), |i: int| s[i]@)
}

pub open spec fn opt_syntax_view(s: Option<Syntax>) -> Option<SyntaxView> {
    match s {
        Some(s) => Some(s@),
        None => None,
    }
}

/// The items of a list, stated over [`syntaxes_view`].
pub proof fn lemma_syntax_list_view(l: List)
    ensures
        syntax_view(Syntax::List(l)) == SyntaxView::List(l.open@, l.close@, syntaxes_view(l.items@)),
{
    assert(syntax_view(Syntax::List(l))->List_2 =~= syntaxes_view(l.items@));
}

impl Clone for LineComment {
    fn clone(&self) -> (r: Self)
        ensures
            r.delim@ == self.delim@ && r.delim_span == self.delim_span && r.data_span
                == self.data_span && r.data@ == self.data@,
    {
        LineComment {
            delim: self.delim.clone(),
            delim_span: self.delim_span.clone(),
            data_span: self.data_span.clone(),
            data: self.data.clone(),
        }
    }
}

/// Copies a sequence of syntax.
pub fn clone_syntaxes(v: &Vec<Syntax>) -> (r: Vec<Syntax>)
    ensures
        syntaxes_view(r@) == syntaxes_view(v@),
    decreases v, 1nat,
{
    let mut out: Vec<Syntax> = Vec::new();
    let n = v.len();
    for i in 0..n
        invariant
            n == v.len(),
            out.len() == i,
            forall|j: int| 0 <= j < i ==> #[trigger] out@[j]@ == v@[j]@,
    {
        proof {
            broadcast use vstd::std_specs::vec::axiom_vec_index_decreases;
        }
        out.push(clone_syntax(&v[i]));
    }
    assert(syntaxes_view(out@) =~= syntaxes_view(v@));
    out
}

/// Copies a piece of syntax.
pub fn clone_syntax(s: &Syntax) -> (r: Syntax)
    ensures
        r@ == s@,
    decreases s, 0nat,
{
    match s {
        Syntax::LineComment(c) => Syntax::LineComment(c.clone()),
        Syntax::Int(i) => Syntax::Int(Int { span: i.span.clone(), value: i.value }),
        Syntax::String(t) => Syntax::String(
            Str {
                open: t.open.clone(),
                close: t.close.clone(),
                raw: t.raw.clone(),
                span: t.span.clone(),
            },
        ),
        Syntax::Symbol(y) => Syntax::Symbol(Symbol { val: y.val.clone(), span: y.span.clone() }),
        Syntax::List(l) => {
            let items = clone_syntaxes(&l.items);
            let r = List { open: l.open.clone(), close: l.close.clone(), items };
            proof {
                lemma_syntax_list_view(r);
                lemma_syntax_list_view(*l);
            }
            Syntax::List(r)
        },
    }
}

impl Clone for Syntax {
    fn clone(&self) -> (r: Self)
        ensures
            r@ == self@,
    {
        clone_syntax(self)
    }
}

/// Copies an optional piece of syntax.
pub fn clone_opt_syntax(s: &Option<Syntax>) -> (r: Option<Syntax>)
    ensures
        opt_syntax_view(r) == opt_syntax_view(*s),
{
    match s {
        Some(s) => Some(clone_syntax(s)),
        None => None,
    }
}

} // verus!
