use crate::heap::Gc;
use crate::bindings::Bindings;
use crate::name::{opt_name_view, Name, NameView, Symbol, SymbolView};
use crate::source::{opt_span_view, Span};
use vstd::prelude::*;

verus! {

/// A module: a name, where it was defined, and its definitions.
#[derive(Clone, Debug, Hash)]
pub struct Module<T> {
    pub name: Option<Name>,
    pub span: Option<Span>,
    pub entries: Bindings<T>,
}

impl<T> Module<T> {
    pub fn new(name: Name, span: Option<Span>) -> (r: Self)
        ensures
            opt_name_view(r.name) == Some(name@),
            r.span == span,
            r.entries@ == Map::<SymbolView, usize>::empty(),
    {
        Module { name: Some(name), span, entries: Bindings::new() }
    }

    /// The unnamed module that everything else lives in.
    pub fn new_world() -> (r: Self)
        ensures
            r.name is None,
            r.span is None,
            r.entries@ == Map::<SymbolView, usize>::empty(),
    {
        Module { name: None, span: None, entries: Bindings::new() }
    }

    pub fn lookup(&self, name: &Symbol) -> (r: Option<Gc<T>>)
        ensures
            match r {
                Some(g) => self.entries@.dom().contains(name@) && self.entries@[name@] == g.index,
                None => !self.entries@.dom().contains(name@),
            },
    {
        self.entries.get(name)
    }

    /// Defines `name`, giving back what it was defined as before, if anything.
    pub fn define(&mut self, name: Symbol, value: Gc<T>) -> (r: Option<Gc<T>>)
        ensures
            final(self).entries@ == old(self).entries@.insert(name@, value.index),
            final(self).name == old(self).name,
            final(self).span == old(self).span,
            match r {
                Some(g) => old(self).entries@.dom().contains(name@) && old(self).entries@[name@]
                    == g.index,
                None => !old(self).entries@.dom().contains(name@),
            },
    {
        self.entries.insert(name, value)
    }
}

} // verus!
