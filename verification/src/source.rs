use std::rc::Rc;
use vstd::prelude::*;

verus! {

/// A piece of source code, with the path it was read from, if any.
#[derive(Debug, PartialEq, Eq, Hash)]
pub struct Source {
    pub path: Option<String>,
    pub code: String,
}

/// The mathematical model of a [`Source`].
pub struct SourceView {
    pub path: Option<Seq<char>>,
    pub code: Seq<char>,
}

pub open spec fn opt_string_view(s: Option<String>) -> Option<Seq<char>> {
    match s {
        Some(s) => Some(s@),
        None => None,
    }
}

impl View for Source {
    type V = SourceView;

    open spec fn view(&self) -> SourceView {
        SourceView { path: opt_string_view(self.path), code: self.code@ }
    }
}

impl Source {
    pub fn new(path: Option<String>, code: String) -> (r: Self)
        ensures
            r.path == path,
            r.code == code,
    {
        Self { path, code }
    }

    /// Compares two sources by their contents.
    pub fn same(&self, other: &Source) -> (r: bool)
        ensures
            r == (self@ == other@),
    {
        let same_path = match &self.path {
            Some(a) => match &other.path {
                Some(b) => *a == *b,
                None => false,
            },
            None => other.path.is_none(),
        };
        let same_code = self.code == other.code;
        proof {
            if same_path && same_code {
                assert(self@.path == other@.path);
            }
        }
        same_path && same_code
    }
}

/// A region of a source file, from byte `start` up to byte `end`.
#[derive(Debug, PartialEq, Eq, Hash)]
pub struct Span {
    pub file: Rc<Source>,
    pub start: usize,
    pub end: usize,
}

/// The mathematical model of a [`Span`].
pub struct SpanView {
    pub file: SourceView,
    pub start: usize,
    pub end: usize,
}

impl View for Span {
    type V = SpanView;

    open spec fn view(&self) -> SpanView {
        SpanView { file: (*self.file)@, start: self.start, end: self.end }
    }
}

pub open spec fn opt_span_view(s: Option<Span>) -> Option<SpanView> {
    match s {
        Some(s) => Some(s@),
        None => None,
    }
}

pub open spec fn opt_spans_view(s: Option<(Span, Span)>) -> Option<(SpanView, SpanView)> {
    match s {
        Some((a, b)) => Some((a@, b@)),
        None => None,
    }
}

impl Span {
    pub fn new(file: Rc<Source>, start: usize, end: usize) -> (r: Self)
        ensures
            r.file == file,
            r.start == start,
            r.end == end,
    {
        Self { file, start, end }
    }

    /// Compares two spans by their contents.
    pub fn same(&self, other: &Span) -> (r: bool)
        ensures
            r == (self@ == other@),
    {
        self.start == other.start && self.end == other.end && (*self.file).same(&*other.file)
    }
}

impl Clone for Span {
    fn clone(&self) -> (r: Self)
        ensures
            r == *self,
    {
        Span { file: Rc::clone(&self.file), start: self.start, end: self.end }
    }
}

/// Copies an optional span.
pub fn clone_opt_span(s: &Option<Span>) -> (r: Option<Span>)
    ensures
        r == *s,
{
    match s {
        Some(s) => Some(s.clone()),
        None => None,
    }
}

/// Copies an optional pair of spans.
pub fn clone_opt_spans(s: &Option<(Span, Span)>) -> (r: Option<(Span, Span)>)
    ensures
        r == *s,
{
    match s {
        Some((a, b)) => Some((a.clone(), b.clone())),
        None => None,
    }
}

/// Compares two optional spans by their contents.
pub fn same_opt_span(a: &Option<Span>, b: &Option<Span>) -> (r: bool)
    ensures
        r == (opt_span_view(*a) == opt_span_view(*b)),
{
    match (a, b) {
        (Some(x), Some(y)) => x.same(y),
        (None, None) => true,
        _ => false,
    }
}

} // verus!
