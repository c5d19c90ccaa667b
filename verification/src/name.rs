use crate::source::{opt_span_view, same_opt_span, clone_opt_span, Span, SpanView};
use vstd::prelude::*;

verus! {

/// A name, optionally annotated with where it appeared in the source.
#[derive(Debug, PartialEq, Eq, Hash)]
pub struct Symbol {
    pub value: String,
    pub span: Option<Span>,
}

/// The mathematical model of a [`Symbol`].
pub struct SymbolView {
    pub value: Seq<char>,
    pub span: Option<SpanView>,
}

impl View for Symbol {
    type V = SymbolView;

    open spec fn view(&self) -> SymbolView {
        SymbolView { value: self.value@, span: opt_span_view(self.span) }
    }
}

impl Symbol {
    pub fn new(value: &str) -> (r: Self)
        ensures
            r.value@ == value@,
            r.span is None,
    {
        Symbol { value: value.to_owned(), span: None }
    }

    pub fn new_spanning(value: &str, span: Span) -> (r: Self)
        ensures
            r.value@ == value@,
            r.span == Some(span),
    {
        Symbol { value: value.to_owned(), span: Some(span) }
    }

    pub fn as_str(&self) -> (r: &str)
        ensures
            r@ == self.value@,
    {
        self.value.as_str()
    }

    /// Compares two symbols by name and span.
    pub fn same(&self, other: &Symbol) -> (r: bool)
        ensures
            r == (self@ == other@),
    {
        self.value == other.value && same_opt_span(&self.span, &other.span)
    }
}

impl Clone for Symbol {
    fn clone(&self) -> (r: Self)
        ensures
            r == *self,
    {
        Symbol { value: self.value.clone(), span: clone_opt_span(&self.span) }
    }
}

/// This form is quite flexible, it can encompass all manner of dots.
///
/// ## Examples
///
/// `.`
/// `..`
/// `.a`
/// `.a.b`
/// `.a.b.`
/// `a.`
/// `a.b.`
#[derive(Debug, PartialEq, Eq, Hash)]
pub struct Dotted(pub Vec<DottedItem>);

#[derive(Debug, PartialEq, Eq, Hash)]
pub struct Dot(pub Option<Span>);

#[derive(Debug, PartialEq, Eq, Hash)]
pub enum DottedItem {
    Dot(Dot),
    Item(Symbol),
}

#[derive(Debug, PartialEq, Eq, Hash)]
pub enum Name {
    Symbol(Symbol),
    Dotted(Dotted),
}

impl From<Symbol> for Name {
    fn from(s: Symbol) -> (r: Name)
        ensures
            r == Name::Symbol(s),
    {
        Name::Symbol(s)
    }
}

impl vstd::std_specs::convert::FromSpecImpl<Symbol> for Name {
    open spec fn obeys_from_spec() -> bool {
        true
    }

    open spec fn from_spec(s: Symbol) -> Name {
        Name::Symbol(s)
    }
}

impl From<Dotted> for Name {
    fn from(d: Dotted) -> (r: Name)
        ensures
            r == Name::Dotted(d),
    {
        Name::Dotted(d)
    }
}

impl vstd::std_specs::convert::FromSpecImpl<Dotted> for Name {
    open spec fn obeys_from_spec() -> bool {
        true
    }

    open spec fn from_spec(d: Dotted) -> Name {
        Name::Dotted(d)
    }
}

} // verus!

verus! {

/// The mathematical model of a [`Name`].
pub enum NameView {
    Symbol(SymbolView),
    Dotted(Seq<Option<Option<SpanView>>>, Seq<Option<SymbolView>>),
}

pub open spec fn dotted_item_view(d: DottedItem) -> (Option<Option<SpanView>>, Option<SymbolView>) {
    match d {
        DottedItem::Dot(Dot(s)) => (Some(opt_span_view(s)), None),
        DottedItem::Item(s) => (None, Some(s@)),
    }
}

impl View for Name {
    type V = NameView;

    open spec fn view(&self) -> NameView {
        match self {
            Name::Symbol(s) => NameView::Symbol(s@),
            Name::Dotted(Dotted(items)) => NameView::Dotted(
                Seq::new(items.len() as nat, |i: int| dotted_item_view(items@[i]).0),
                Seq::new(items.len() as nat, |i: int| dotted_item_view(items@[i]).1),
            ),
        }
    }
}

pub open spec fn opt_name_view(n: Option<Name>) -> Option<NameView> {
    match n {
        Some(n) => Some(n@),
        None => None,
    }
}

impl Clone for DottedItem {
    fn clone(&self) -> (r: Self)
        ensures
            r == *self,
    {
        match self {
            DottedItem::Dot(Dot(s)) => DottedItem::Dot(Dot(clone_opt_span(s))),
            DottedItem::Item(s) => DottedItem::Item(s.clone()),
        }
    }
}

impl Clone for Name {
    fn clone(&self) -> (r: Self)
        ensures
            r@ == self@,
    {
        match self {
            Name::Symbol(s) => Name::Symbol(s.clone()),
            Name::Dotted(Dotted(items)) => {
                let mut out: Vec<DottedItem> = Vec::new();
                let n = items.len();
                for i in 0..n
                    invariant
                        n == items.len(),
                        out.len() == i,
                        forall|j: int| 0 <= j < i ==> #[trigger] out@[j] == items@[j],
                {
                    out.push(items[i].clone());
                }
                let r = Name::Dotted(Dotted(out));
                proof {
                    let a = r@;
                    let b = self@;
                    assert(a->Dotted_0 =~= b->Dotted_0);
                    assert(a->Dotted_1 =~= b->Dotted_1);
                }
                r
            },
        }
    }
}

/// Copies an optional name.
pub fn clone_opt_name(n: &Option<Name>) -> (r: Option<Name>)
    ensures
        opt_name_view(r) == opt_name_view(*n),
{
    match n {
        Some(n) => Some(n.clone()),
        None => None,
    }
}

} // verus!
