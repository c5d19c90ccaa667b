use crate::data::Datum;
use crate::source::Span;
use vstd::prelude::*;

verus! {

/// A map of data to data, with where it was written, if anywhere.
pub struct Dict {
    pub values: Vec<(Datum, Datum)>,
    pub span: Option<Span>,
}

} // verus!
