use crate::source::{
    clone_opt_span, clone_opt_spans, opt_span_view, opt_spans_view, same_opt_span, Span, SpanView,
};
use std::rc::Rc;
use vstd::prelude::*;

verus! {

/// The primitive operatives built into the evaluator.
#[derive(Clone, Copy, Debug, PartialEq, Eq, Structural, Hash)]
pub enum Prim {
    Vex,
    Fn,
    If,
    Eval,
    Define,
}

/// A frame of bindings. Later bindings of a name shadow earlier ones.
#[derive(Clone, Debug)]
pub struct Frame {
    pub bindings: Vec<(String, Datum)>,
}

/// All the frames that environments refer to. An environment names its
/// frames by their position here, so that every environment which holds a
/// frame sees the definitions later made in it.
#[derive(Debug)]
pub struct Store {
    frames: Vec<Frame>,
}

/// A lexical environment: a chain of frames, the innermost last. There is
/// always at least one.
#[derive(Debug, Hash)]
pub struct Env {
    frames: Vec<usize>,
}

/// The data the evaluator works on.
#[derive(Debug)]
pub enum Datum {
    Nil,
    Bool(bool, Option<Span>),
    Int(isize, Option<Span>),
    String(Rc<String>, Option<Span>),
    Symbol(Rc<String>, Option<Span>),
    Prim(Prim),
    Keyword(Rc<String>, Option<Span>),
    List(Vec<Datum>, Option<(Span, Span)>),
    Vec(Vec<Datum>, Option<(Span, Span)>),
    Dict(Vec<(Datum, Datum)>, Option<(Span, Span)>),
    VecLit(Vec<Datum>, Option<(Span, Span)>),
    MapLit(Vec<(Datum, Datum)>, Option<(Span, Span)>),
    Vex(Rc<Vex>),
    Fun(Rc<Fun>),
    Env(Env),
    Span(Span),
    SurroundSpan(Span, Span),
}

#[derive(Debug)]
pub struct Param {
    pub name: Option<String>,
    pub span: Span,
}

#[derive(Debug)]
pub struct Params {
    pub fixed: Vec<Param>,
    pub scoop: Option<Param>,
    pub call_span: Option<Param>,
    pub whole: Option<Param>,
}

/// An f-expression: it receives its arguments unevaluated, together with
/// the environment it was called from.
#[derive(Clone, Debug)]
pub struct Vex {
    pub params: Params,
    pub env: Param,
    pub closure: Env,
    pub body: Vec<Datum>,
    pub span: Option<(Span, Span)>,
}

/// A function: it receives its arguments evaluated.
#[derive(Clone, Debug)]
pub struct Fun {
    pub params: Params,
    pub closure: Env,
    pub body: Vec<Datum>,
    pub span: Option<(Span, Span)>,
}

// ---------------------------------------------------------------------------
// The mathematical model
// ---------------------------------------------------------------------------

pub struct ParamView {
    pub name: Option<Seq<char>>,
    pub span: SpanView,
}

pub struct ParamsView {
    pub fixed: Seq<ParamView>,
    pub scoop: Option<ParamView>,
    pub call_span: Option<ParamView>,
    pub whole: Option<ParamView>,
}

pub struct VexView {
    pub params: ParamsView,
    pub env: ParamView,
    pub closure: Seq<usize>,
    pub body: Seq<DatumView>,
    pub span: Option<(SpanView, SpanView)>,
}

pub struct FunView {
    pub params: ParamsView,
    pub closure: Seq<usize>,
    pub body: Seq<DatumView>,
    pub span: Option<(SpanView, SpanView)>,
}

pub enum DatumView {
    Nil,
    Bool(bool, Option<SpanView>),
    Int(isize, Option<SpanView>),
    String(Seq<char>, Option<SpanView>),
    Symbol(Seq<char>, Option<SpanView>),
    Prim(Prim),
    Keyword(Seq<char>, Option<SpanView>),
    List(Seq<DatumView>, Option<(SpanView, SpanView)>),
    Vec(Seq<DatumView>, Option<(SpanView, SpanView)>),
    Dict(Seq<(DatumView, DatumView)>, Option<(SpanView, SpanView)>),
    VecLit(Seq<DatumView>, Option<(SpanView, SpanView)>),
    MapLit(Seq<(DatumView, DatumView)>, Option<(SpanView, SpanView)>),
    Vex(VexView),
    Fun(FunView),
    Env(Seq<usize>),
    Span(SpanView),
    SurroundSpan(SpanView, SpanView),
}

/// A frame's bindings, as names and values.
pub type FrameView = Seq<(Seq<char>, DatumView)>;

/// The frames of a store.
pub type StoreView = Seq<FrameView>;

pub open spec fn param_view(p: Param) -> ParamView {
    ParamView {
        name: match p.name {
            Some(n) => Some(n@),
            None => None,
        },
        span: p.span@,
    }
}

pub open spec fn opt_param_view(p: Option<Param>) -> Option<ParamView> {
    match p {
        Some(p) => Some(param_view(p)),
        None => None,
    }
}

pub open spec fn params_view(p: Params) -> ParamsView {
    ParamsView {
        fixed: Seq::new(p.fixed.len() as nat, |i: int| param_view(p.fixed@[i])),
        scoop: opt_param_view(p.scoop),
        call_span: opt_param_view(p.call_span),
        whole: opt_param_view(p.whole),
    }
}

pub open spec fn datum_view(d: Datum) -> DatumView
    decreases d,
{
    match d {
        Datum::Nil => DatumView::Nil,
        Datum::Bool(b, s) => DatumView::Bool(b, opt_span_view(s)),
        Datum::Int(i, s) => DatumView::Int(i, opt_span_view(s)),
        Datum::String(v, s) => DatumView::String((*v)@, opt_span_view(s)),
        Datum::Symbol(v, s) => DatumView::Symbol((*v)@, opt_span_view(s)),
        Datum::Prim(p) => DatumView::Prim(p),
        Datum::Keyword(v, s) => DatumView::Keyword((*v)@, opt_span_view(s)),
        Datum::List(v, s) => DatumView::List(
            Seq::new(
                v.len() as nat,
                |i: int|
                    if 0 <= i < v.len() {
                        proof {
                            broadcast use vstd::std_specs::vec::axiom_vec_decreases_to_view;
                            assert(decreases_to!(v => v@[i]));
                        }
                        datum_view(v@[i])
                    } else {
                        DatumView::Nil
                    },
            ),
            opt_spans_view(s),
        ),
        Datum::Vec(v, s) => DatumView::Vec(
            Seq::new(
                v.len() as nat,
                |i: int|
                    if 0 <= i < v.len() {
                        proof {
                            broadcast use vstd::std_specs::vec::axiom_vec_decreases_to_view;
                            assert(decreases_to!(v => v@[i]));
                        }
                        datum_view(v@[i])
                    } else {
                        DatumView::Nil
                    },
            ),
            opt_spans_view(s),
        ),
        Datum::VecLit(v, s) => DatumView::VecLit(
            Seq::new(
                v.len() as nat,
                |i: int|
                    if 0 <= i < v.len() {
                        proof {
                            broadcast use vstd::std_specs::vec::axiom_vec_decreases_to_view;
                            assert(decreases_to!(v => v@[i]));
                        }
                        datum_view(v@[i])
                    } else {
                        DatumView::Nil
                    },
            ),
            opt_spans_view(s),
        ),
        Datum::Dict(v, s) => DatumView::Dict(
            Seq::new(
                v.len() as nat,
                |i: int|
                    if 0 <= i < v.len() {
                        proof {
                            broadcast use vstd::std_specs::vec::axiom_vec_decreases_to_view;
                            assert(decreases_to!(v => v@[i]));
                        }
                        (datum_view(v@[i].0), datum_view(v@[i].1))
                    } else {
                        (DatumView::Nil, DatumView::Nil)
                    },
            ),
            opt_spans_view(s),
        ),
        Datum::MapLit(v, s) => DatumView::MapLit(
            Seq::new(
                v.len() as nat,
                |i: int|
                    if 0 <= i < v.len() {
                        proof {
                            broadcast use vstd::std_specs::vec::axiom_vec_decreases_to_view;
                            assert(decreases_to!(v => v@[i]));
                        }
                        (datum_view(v@[i].0), datum_view(v@[i].1))
                    } else {
                        (DatumView::Nil, DatumView::Nil)
                    },
            ),
            opt_spans_view(s),
        ),
        Datum::Vex(x) => DatumView::Vex(
            VexView {
                params: params_view(x.params),
                env: param_view(x.env),
                closure: x.closure@,
                body: Seq::new(
                    x.body.len() as nat,
                    |i: int|
                        if 0 <= i < x.body.len() {
                            proof {
                                broadcast use vstd::std_specs::vec::axiom_vec_decreases_to_view;
                                assert(decreases_to!(x.body => x.body@[i]));
                            }
                            datum_view(x.body@[i])
                        } else {
                            DatumView::Nil
                        },
                ),
                span: opt_spans_view(x.span),
            },
        ),
        Datum::Fun(x) => DatumView::Fun(
            FunView {
                params: params_view(x.params),
                closure: x.closure@,
                body: Seq::new(
                    x.body.len() as nat,
                    |i: int|
                        if 0 <= i < x.body.len() {
                            proof {
                                broadcast use vstd::std_specs::vec::axiom_vec_decreases_to_view;
                                assert(decreases_to!(x.body => x.body@[i]));
                            }
                            datum_view(x.body@[i])
                        } else {
                            DatumView::Nil
                        },
                ),
                span: opt_spans_view(x.span),
            },
        ),
        Datum::Env(e) => DatumView::Env(e@),
        Datum::Span(s) => DatumView::Span(s@),
        Datum::SurroundSpan(a, b) => DatumView::SurroundSpan(a@, b@),
    }
}

pub open spec fn vex_view(x: Vex) -> VexView {
    VexView {
        params: params_view(x.params),
        env: param_view(x.env),
        closure: x.closure@,
        body: datums_view(x.body@),
        span: opt_spans_view(x.span),
    }
}

pub open spec fn fun_view(x: Fun) -> FunView {
    FunView {
        params: params_view(x.params),
        closure: x.closure@,
        body: datums_view(x.body@),
        span: opt_spans_view(x.span),
    }
}

/// The view of a list-like datum, stated over [`datums_view`].
pub broadcast proof fn lemma_view_seqs(d: Datum)
    ensures
        #[trigger] datum_view(d) == match d {
            Datum::List(v, s) => DatumView::List(datums_view(v@), opt_spans_view(s)),
            Datum::Vec(v, s) => DatumView::Vec(datums_view(v@), opt_spans_view(s)),
            Datum::VecLit(v, s) => DatumView::VecLit(datums_view(v@), opt_spans_view(s)),
            Datum::Dict(v, s) => DatumView::Dict(pairs_view(v@), opt_spans_view(s)),
            Datum::MapLit(v, s) => DatumView::MapLit(pairs_view(v@), opt_spans_view(s)),
            _ => datum_view(d),
        },
{
    match d {
        Datum::List(v, s) => {
            assert(datum_view(d)->List_0 =~= datums_view(v@));
        },
        Datum::Vec(v, s) => {
            assert(datum_view(d)->Vec_0 =~= datums_view(v@));
        },
        Datum::VecLit(v, s) => {
            assert(datum_view(d)->VecLit_0 =~= datums_view(v@));
        },
        Datum::Dict(v, s) => {
            assert(datum_view(d)->Dict_0 =~= pairs_view(v@));
        },
        Datum::MapLit(v, s) => {
            assert(datum_view(d)->MapLit_0 =~= pairs_view(v@));
        },
        _ => {},
    }
}

/// The body of a vex or function, stated over [`datums_view`].
pub broadcast proof fn lemma_view_bodies(d: Datum)
    ensures
        #[trigger] datum_view(d) == match d {
            Datum::Vex(x) => DatumView::Vex(vex_view(*x)),
            Datum::Fun(x) => DatumView::Fun(fun_view(*x)),
            _ => datum_view(d),
        },
{
    match d {
        Datum::Vex(x) => {
            assert(datum_view(d)->Vex_0.body =~= datums_view(x.body@));
        },
        Datum::Fun(x) => {
            assert(datum_view(d)->Fun_0.body =~= datums_view(x.body@));
        },
        _ => {},
    }
}

impl View for Datum {
    type V = DatumView;

    open spec fn view(&self) -> DatumView {
        datum_view(*self)
    }
}

impl View for Env {
    type V = Seq<usize>;

    closed spec fn view(&self) -> Seq<usize> {
        self.frames@
    }
}

impl View for Param {
    type V = ParamView;

    open spec fn view(&self) -> ParamView {
        param_view(*self)
    }
}

impl View for Params {
    type V = ParamsView;

    open spec fn view(&self) -> ParamsView {
        params_view(*self)
    }
}

/// The views of a sequence of data.
pub open spec fn datums_view(v: Seq<Datum>) -> Seq<DatumView> {
    Seq::new(v.len(), |i: int| v[i]@)
}

/// The views of a sequence of pairs of data.
pub open spec fn pairs_view(v: Seq<(Datum, Datum)>) -> Seq<(DatumView, DatumView)> {
    Seq::new(v.len(), |i: int| (v[i].0@, v[i].1@))
}

pub open spec fn frame_view(f: Frame) -> FrameView {
    Seq::new(f.bindings.len() as nat, |i: int| (f.bindings@[i].0@, f.bindings@[i].1@))
}

impl View for Store {
    type V = StoreView;

    closed spec fn view(&self) -> StoreView {
        Seq::new(self.frames.len() as nat, |i: int| frame_view(self.frames@[i]))
    }
}

// ---------------------------------------------------------------------------
// What frames and environments mean
// ---------------------------------------------------------------------------

/// The value of the latest binding of `name` in a frame, if any.
pub open spec fn frame_lookup(f: FrameView, name: Seq<char>) -> Option<DatumView>
    decreases f.len(),
{
    if f.len() == 0 {
        None
    } else if f.last().0 == name {
        Some(f.last().1)
    } else {
        frame_lookup(f.drop_last(), name)
    }
}

/// The frame at `index`, or no bindings at all where the store has no such frame.
pub open spec fn frame_at(st: StoreView, index: usize) -> FrameView {
    if index < st.len() {
        st[index as int]
    } else {
        Seq::empty()
    }
}

/// The value of `name` in an environment: that of the innermost frame
/// that binds it.
pub open spec fn env_lookup(st: StoreView, env: Seq<usize>, name: Seq<char>) -> Option<DatumView>
    decreases env.len(),
{
    if env.len() == 0 {
        None
    } else {
        match frame_lookup(frame_at(st, env.last()), name) {
            Some(v) => Some(v),
            None => env_lookup(st, env.drop_last(), name),
        }
    }
}

/// The store after binding `name` to `value` in the innermost frame of `env`.
pub open spec fn env_define(st: StoreView, env: Seq<usize>, name: Seq<char>, value: DatumView) -> StoreView {
    if env.len() > 0 && env.last() < st.len() {
        st.update(env.last() as int, st[env.last() as int].push((name, value)))
    } else {
        st
    }
}

/// An environment is well formed when it has a frame and each of its frames
/// is in the store.
pub open spec fn env_wf(st: StoreView, env: Seq<usize>) -> bool {
    &&& env.len() > 0
    &&& forall|i: int| 0 <= i < env.len() ==> #[trigger] env[i] < st.len()
}

/// The frame that `update` changes: the index of the latest binding of `name`.
pub open spec fn frame_update(f: FrameView, name: Seq<char>, value: DatumView) -> Option<FrameView>
    decreases f.len(),
{
    if f.len() == 0 {
        None
    } else if f.last().0 == name {
        Some(f.drop_last().push((name, value)))
    } else {
        match frame_update(f.drop_last(), name, value) {
            Some(g) => Some(g.push(f.last())),
            None => None,
        }
    }
}

// ---------------------------------------------------------------------------
// Copies
// ---------------------------------------------------------------------------

pub fn clone_string(s: &String) -> (r: String)
    ensures
        r@ == s@,
{
    s.clone()
}

pub fn clone_opt_string(s: &Option<String>) -> (r: Option<String>)
    ensures
        match (r, *s) {
            (Some(a), Some(b)) => a@ == b@,
            (None, None) => true,
            _ => false,
        },
{
    match s {
        Some(s) => Some(s.clone()),
        None => None,
    }
}

impl Clone for Param {
    fn clone(&self) -> (r: Self)
        ensures
            r@ == self@,
    {
        Param { name: clone_opt_string(&self.name), span: self.span.clone() }
    }
}

pub fn clone_opt_param(p: &Option<Param>) -> (r: Option<Param>)
    ensures
        opt_param_view(r) == opt_param_view(*p),
{
    match p {
        Some(p) => Some(p.clone()),
        None => None,
    }
}

impl Clone for Params {
    fn clone(&self) -> (r: Self)
        ensures
            r@ == self@,
    {
        let mut fixed: Vec<Param> = Vec::new();
        let n = self.fixed.len();
        for i in 0..n
            invariant
                n == self.fixed.len(),
                fixed.len() == i,
                forall|j: int| 0 <= j < i ==> #[trigger] fixed@[j]@ == self.fixed@[j]@,
        {
            fixed.push(self.fixed[i].clone());
        }
        let r = Params {
            fixed,
            scoop: clone_opt_param(&self.scoop),
            call_span: clone_opt_param(&self.call_span),
            whole: clone_opt_param(&self.whole),
        };
        assert forall|j: int| 0 <= j < n implies param_view(r.fixed@[j]) == param_view(
            self.fixed@[j],
        ) by {
            assert(r.fixed@[j]@ == self.fixed@[j]@);
        }
        assert(r@.fixed =~= self@.fixed);
        r
    }
}

impl Clone for Env {
    fn clone(&self) -> (r: Self)
        ensures
            r@ == self@,
    {
        proof {
            use_type_invariant(self);
        }
        let mut frames: Vec<usize> = Vec::new();
        let n = self.frames.len();
        for i in 0..n
            invariant
                n == self.frames.len(),
                frames@ == self.frames@.take(i as int),
        {
            frames.push(self.frames[i]);
            assert(frames@ =~= self.frames@.take(i + 1));
        }
        assert(frames@ =~= self.frames@);
        Env { frames }
    }
}

/// Copies a sequence of data.
pub fn clone_datums(v: &Vec<Datum>) -> (r: Vec<Datum>)
    ensures
        datums_view(r@) == datums_view(v@),
    decreases v, 1nat,
{
    let mut out: Vec<Datum> = Vec::new();
    let n = v.len();
    for i in 0..n
        invariant
            n == v.len(),
            out.len() == i,
            forall|j: int| 0 <= j < i ==> #[trigger] out@[j]@ == v@[j]@,
    {
        proof {
            broadcast use vstd::std_specs::vec::axiom_vec_index_decreases;
        }
        out.push(clone_datum(&v[i]));
    }
    assert(datums_view(out@) =~= datums_view(v@));
    out
}

/// Copies a sequence of pairs of data.
pub fn clone_pairs(v: &Vec<(Datum, Datum)>) -> (r: Vec<(Datum, Datum)>)
    ensures
        pairs_view(r@) == pairs_view(v@),
    decreases v, 1nat,
{
    let mut out: Vec<(Datum, Datum)> = Vec::new();
    let n = v.len();
    for i in 0..n
        invariant
            n == v.len(),
            out.len() == i,
            forall|j: int|
                #![trigger out@[j]]
                0 <= j < i ==> out@[j].0@ == v@[j].0@ && out@[j].1@ == v@[j].1@,
    {
        proof {
            broadcast use vstd::std_specs::vec::axiom_vec_index_decreases;
        }
        let a = clone_datum(&v[i].0);
        let b = clone_datum(&v[i].1);
        out.push((a, b));
    }
    assert(pairs_view(out@) =~= pairs_view(v@));
    out
}

/// Copies a datum. Shared parts (strings, vexes, functions) are shared by the copy.
pub fn clone_datum(d: &Datum) -> (r: Datum)
    ensures
        r@ == d@,
    decreases d, 0nat,
{
    let r = match d {
        Datum::Nil => Datum::Nil,
        Datum::Bool(b, s) => Datum::Bool(*b, clone_opt_span(s)),
        Datum::Int(i, s) => Datum::Int(*i, clone_opt_span(s)),
        Datum::String(v, s) => Datum::String(Rc::clone(v), clone_opt_span(s)),
        Datum::Symbol(v, s) => Datum::Symbol(Rc::clone(v), clone_opt_span(s)),
        Datum::Prim(p) => Datum::Prim(*p),
        Datum::Keyword(v, s) => Datum::Keyword(Rc::clone(v), clone_opt_span(s)),
        Datum::List(v, s) => {
            let c = clone_datums(v);
            let r = Datum::List(c, clone_opt_spans(s));
            proof { lemma_view_seqs(r); lemma_view_seqs(*d); }
            r
        },
        Datum::Vec(v, s) => {
            let c = clone_datums(v);
            let r = Datum::Vec(c, clone_opt_spans(s));
            proof { lemma_view_seqs(r); lemma_view_seqs(*d); }
            r
        },
        Datum::VecLit(v, s) => {
            let c = clone_datums(v);
            let r = Datum::VecLit(c, clone_opt_spans(s));
            proof { lemma_view_seqs(r); lemma_view_seqs(*d); }
            r
        },
        Datum::Dict(v, s) => {
            let c = clone_pairs(v);
            let r = Datum::Dict(c, clone_opt_spans(s));
            proof { lemma_view_seqs(r); lemma_view_seqs(*d); }
            r
        },
        Datum::MapLit(v, s) => {
            let c = clone_pairs(v);
            let r = Datum::MapLit(c, clone_opt_spans(s));
            proof { lemma_view_seqs(r); lemma_view_seqs(*d); }
            r
        },
        Datum::Vex(x) => Datum::Vex(Rc::clone(x)),
        Datum::Fun(x) => Datum::Fun(Rc::clone(x)),
        Datum::Env(e) => Datum::Env(e.clone()),
        Datum::Span(s) => Datum::Span(s.clone()),
        Datum::SurroundSpan(a, b) => Datum::SurroundSpan(a.clone(), b.clone()),
    };
    r
}

impl Clone for Datum {
    fn clone(&self) -> (r: Self)
        ensures
            r@ == self@,
    {
        clone_datum(self)
    }
}

// ---------------------------------------------------------------------------
// Equality
//
// Two data are equal when their views are: the same variant with equal
// parts, spans and strings compared by their contents, environments by the
// frames they name.
// ---------------------------------------------------------------------------

fn same_opt_string(a: &Option<String>, b: &Option<String>) -> (r: bool)
    ensures
        r == (match (*a, *b) {
            (Some(x), Some(y)) => x@ == y@,
            (None, None) => true,
            _ => false,
        }),
{
    match (a, b) {
        (Some(x), Some(y)) => *x == *y,
        (None, None) => true,
        _ => false,
    }
}

fn same_opt_spans(a: &Option<(Span, Span)>, b: &Option<(Span, Span)>) -> (r: bool)
    ensures
        r == (opt_spans_view(*a) == opt_spans_view(*b)),
{
    match (a, b) {
        (Some((a0, a1)), Some((b0, b1))) => a0.same(b0) && a1.same(b1),
        (None, None) => true,
        _ => false,
    }
}

fn same_param(a: &Param, b: &Param) -> (r: bool)
    ensures
        r == (a@ == b@),
{
    let r = same_opt_string(&a.name, &b.name) && a.span.same(&b.span);
    proof {
        if r {
            assert(a@.name == b@.name);
        }
    }
    r
}

fn same_opt_param(a: &Option<Param>, b: &Option<Param>) -> (r: bool)
    ensures
        r == (opt_param_view(*a) == opt_param_view(*b)),
{
    match (a, b) {
        (Some(x), Some(y)) => same_param(x, y),
        (None, None) => true,
        _ => false,
    }
}

fn same_params(a: &Params, b: &Params) -> (r: bool)
    ensures
        r == (a@ == b@),
{
    let n = a.fixed.len();
    if n != b.fixed.len() {
        proof {
            assert(a@.fixed.len() != b@.fixed.len());
        }
        return false;
    }
    for i in 0..n
        invariant
            n == a.fixed.len(),
            n == b.fixed.len(),
            forall|j: int| 0 <= j < i ==> #[trigger] a.fixed@[j]@ == b.fixed@[j]@,
    {
        if !same_param(&a.fixed[i], &b.fixed[i]) {
            proof {
                assert(a@.fixed[i as int] != b@.fixed[i as int]);
            }
            return false;
        }
    }
    assert forall|j: int| 0 <= j < n implies a@.fixed[j] == b@.fixed[j] by {
        assert(a.fixed@[j]@ == b.fixed@[j]@);
    }
    assert(a@.fixed =~= b@.fixed);
    same_opt_param(&a.scoop, &b.scoop) && same_opt_param(&a.call_span, &b.call_span)
        && same_opt_param(&a.whole, &b.whole)
}

fn same_env(a: &Env, b: &Env) -> (r: bool)
    ensures
        r == (a@ == b@),
{
    let x = a.frame_indices();
    let y = b.frame_indices();
    let n = x.len();
    if n != y.len() {
        proof {
            assert(x@.len() != y@.len());
        }
        return false;
    }
    for i in 0..n
        invariant
            n == x@.len(),
            n == y@.len(),
            x@ == a@,
            y@ == b@,
            forall|j: int| 0 <= j < i ==> x@[j] == y@[j],
    {
        if x[i] != y[i] {
            proof {
                assert(a@[i as int] != b@[i as int]);
            }
            return false;
        }
    }
    assert(x@ =~= y@);
    true
}

/// Compares two sequences of data, item by item.
fn same_datums(a: &Vec<Datum>, b: &Vec<Datum>) -> (r: bool)
    ensures
        r == (datums_view(a@) == datums_view(b@)),
    decreases a, 1nat,
{
    let n = a.len();
    if n != b.len() {
        proof {
            assert(datums_view(a@).len() != datums_view(b@).len());
        }
        return false;
    }
    for i in 0..n
        invariant
            n == a.len(),
            n == b.len(),
            forall|j: int| 0 <= j < i ==> #[trigger] a@[j]@ == b@[j]@,
    {
        proof {
            broadcast use vstd::std_specs::vec::axiom_vec_index_decreases;
        }
        if !same_datum(&a[i], &b[i]) {
            proof {
                assert(datums_view(a@)[i as int] != datums_view(b@)[i as int]);
            }
            return false;
        }
    }
    assert(datums_view(a@) =~= datums_view(b@));
    true
}

/// Compares two sequences of pairs of data, pair by pair.
fn same_pairs(a: &Vec<(Datum, Datum)>, b: &Vec<(Datum, Datum)>) -> (r: bool)
    ensures
        r == (pairs_view(a@) == pairs_view(b@)),
    decreases a, 1nat,
{
    let n = a.len();
    if n != b.len() {
        proof {
            assert(pairs_view(a@).len() != pairs_view(b@).len());
        }
        return false;
    }
    for i in 0..n
        invariant
            n == a.len(),
            n == b.len(),
            forall|j: int|
                #![trigger a@[j]]
                0 <= j < i ==> a@[j].0@ == b@[j].0@ && a@[j].1@ == b@[j].1@,
    {
        proof {
            broadcast use vstd::std_specs::vec::axiom_vec_index_decreases;
        }
        if !same_datum(&a[i].0, &b[i].0) || !same_datum(&a[i].1, &b[i].1) {
            proof {
                assert(pairs_view(a@)[i as int] != pairs_view(b@)[i as int]);
            }
            return false;
        }
    }
    assert(pairs_view(a@) =~= pairs_view(b@));
    true
}

/// Compares two data by their views: environments by the frames they name,
/// not by what the frames hold (for that, see [`equal_datum`]). Map keys
/// are told apart this way.
pub fn same_datum(a: &Datum, b: &Datum) -> (r: bool)
    ensures
        r == (a@ == b@),
    decreases a, 0nat,
{
    proof {
        lemma_view_seqs(*a);
        lemma_view_seqs(*b);
        lemma_view_bodies(*a);
        lemma_view_bodies(*b);
    }
    match (a, b) {
        (Datum::Nil, Datum::Nil) => true,
        (Datum::Bool(x, s), Datum::Bool(y, t)) => *x == *y && same_opt_span(s, t),
        (Datum::Int(x, s), Datum::Int(y, t)) => *x == *y && same_opt_span(s, t),
        (Datum::String(x, s), Datum::String(y, t)) => **x == **y && same_opt_span(s, t),
        (Datum::Symbol(x, s), Datum::Symbol(y, t)) => **x == **y && same_opt_span(s, t),
        (Datum::Prim(x), Datum::Prim(y)) => *x == *y,
        (Datum::Keyword(x, s), Datum::Keyword(y, t)) => **x == **y && same_opt_span(s, t),
        (Datum::List(x, s), Datum::List(y, t)) => same_datums(x, y) && same_opt_spans(s, t),
        (Datum::Vec(x, s), Datum::Vec(y, t)) => same_datums(x, y) && same_opt_spans(s, t),
        (Datum::Dict(x, s), Datum::Dict(y, t)) => same_pairs(x, y) && same_opt_spans(s, t),
        (Datum::VecLit(x, s), Datum::VecLit(y, t)) => same_datums(x, y) && same_opt_spans(s, t),
        (Datum::MapLit(x, s), Datum::MapLit(y, t)) => same_pairs(x, y) && same_opt_spans(s, t),
        (Datum::Vex(x), Datum::Vex(y)) => {
            let r = same_params(&x.params, &y.params) && same_param(&x.env, &y.env)
                && same_env(&x.closure, &y.closure) && same_datums(&x.body, &y.body)
                && same_opt_spans(&x.span, &y.span);
            proof {
                if r {
                    assert(vex_view(**x) == vex_view(**y));
                }
            }
            r
        },
        (Datum::Fun(x), Datum::Fun(y)) => {
            let r = same_params(&x.params, &y.params) && same_env(&x.closure, &y.closure)
                && same_datums(&x.body, &y.body) && same_opt_spans(&x.span, &y.span);
            proof {
                if r {
                    assert(fun_view(**x) == fun_view(**y));
                }
            }
            r
        },
        (Datum::Env(x), Datum::Env(y)) => same_env(x, y),
        (Datum::Span(x), Datum::Span(y)) => x.same(y),
        (Datum::SurroundSpan(x0, x1), Datum::SurroundSpan(y0, y1)) => x0.same(y0) && x1.same(y1),
        _ => false,
    }
}

// ---------------------------------------------------------------------------
// Equality by contents
//
// Data compare field by field, in order, stopping at the first difference.
// Environments compare frame by frame: the same frame is equal to itself,
// and two frames are equal when their bindings are, value by value. Maps
// compare as maps: the same size, and each key of the first bound in the
// second to an equal value, keys told apart as map keys are (by view).
//
// Comparing environments can go on without end, where frames hold
// environments that hold frames; `fuel` bounds how many frames deep a
// comparison goes, and a comparison that would go deeper gives `None`.
// ---------------------------------------------------------------------------

/// The outcome of comparing one part and then, if it was equal, the rest.
pub open spec fn then_eq(first: Option<bool>, rest: Option<bool>) -> Option<bool> {
    match first {
        Some(true) => rest,
        other => other,
    }
}

/// Two data compared by contents, at most `fuel` frames deep.
pub open spec fn datum_equal(st: StoreView, a: DatumView, b: DatumView, fuel: nat) -> Option<bool>
    decreases fuel, a, 1nat, 0nat,
{
    match (a, b) {
        (DatumView::Nil, DatumView::Nil) => Some(true),
        (DatumView::Bool(x, s), DatumView::Bool(y, t)) => Some(x == y && s == t),
        (DatumView::Int(x, s), DatumView::Int(y, t)) => Some(x == y && s == t),
        (DatumView::String(x, s), DatumView::String(y, t)) => Some(x == y && s == t),
        (DatumView::Symbol(x, s), DatumView::Symbol(y, t)) => Some(x == y && s == t),
        (DatumView::Prim(x), DatumView::Prim(y)) => Some(x == y),
        (DatumView::Keyword(x, s), DatumView::Keyword(y, t)) => Some(x == y && s == t),
        (DatumView::List(x, s), DatumView::List(y, t)) => then_eq(
            items_equal(st, x, y, 0, fuel),
            Some(s == t),
        ),
        (DatumView::Vec(x, s), DatumView::Vec(y, t)) => then_eq(
            items_equal(st, x, y, 0, fuel),
            Some(s == t),
        ),
        (DatumView::Dict(x, s), DatumView::Dict(y, t)) => then_eq(
            if x.len() == y.len() {
                dict_equal(st, x, y, 0, fuel)
            } else {
                Some(false)
            },
            Some(s == t),
        ),
        (DatumView::VecLit(x, s), DatumView::VecLit(y, t)) => then_eq(
            items_equal(st, x, y, 0, fuel),
            Some(s == t),
        ),
        (DatumView::MapLit(x, s), DatumView::MapLit(y, t)) => then_eq(
            pairs_equal(st, x, y, 0, fuel),
            Some(s == t),
        ),
        (DatumView::Vex(x), DatumView::Vex(y)) => then_eq(
            Some(x.params == y.params && x.env == y.env),
            then_eq(
                env_equal(st, x.closure, y.closure, 0, fuel, a),
                then_eq(items_equal(st, x.body, y.body, 0, fuel), Some(x.span == y.span)),
            ),
        ),
        (DatumView::Fun(x), DatumView::Fun(y)) => then_eq(
            Some(x.params == y.params),
            then_eq(
                env_equal(st, x.closure, y.closure, 0, fuel, a),
                then_eq(items_equal(st, x.body, y.body, 0, fuel), Some(x.span == y.span)),
            ),
        ),
        (DatumView::Env(x), DatumView::Env(y)) => env_equal(st, x, y, 0, fuel, a),
        (DatumView::Span(x), DatumView::Span(y)) => Some(x == y),
        (DatumView::SurroundSpan(x0, x1), DatumView::SurroundSpan(y0, y1)) => Some(
            x0 == y0 && x1 == y1,
        ),
        _ => Some(false),
    }
}

/// Two sequences of data compared item by item from `i` on, once their
/// lengths are found equal.
pub open spec fn items_equal(
    st: StoreView,
    x: Seq<DatumView>,
    y: Seq<DatumView>,
    i: nat,
    fuel: nat,
) -> Option<bool>
    decreases fuel, x, 0nat, x.len() - i,
{
    if x.len() != y.len() {
        Some(false)
    } else if i >= x.len() {
        Some(true)
    } else {
        then_eq(datum_equal(st, x[i as int], y[i as int], fuel), items_equal(st, x, y, i + 1, fuel))
    }
}

/// Two sequences of pairs compared pair by pair from `i` on.
pub open spec fn pairs_equal(
    st: StoreView,
    x: Seq<(DatumView, DatumView)>,
    y: Seq<(DatumView, DatumView)>,
    i: nat,
    fuel: nat,
) -> Option<bool>
    decreases fuel, x, 0nat, x.len() - i,
{
    if x.len() != y.len() {
        Some(false)
    } else if i >= x.len() {
        Some(true)
    } else {
        then_eq(
            datum_equal(st, x[i as int].0, y[i as int].0, fuel),
            then_eq(
                datum_equal(st, x[i as int].1, y[i as int].1, fuel),
                pairs_equal(st, x, y, i + 1, fuel),
            ),
        )
    }
}

/// The position of the first pair of `d`, from `j` on, whose key is `key`.
pub open spec fn key_position(d: Seq<(DatumView, DatumView)>, key: DatumView, j: nat) -> Option<nat>
    decreases d.len() - j,
{
    if j >= d.len() {
        None
    } else if d[j as int].0 == key {
        Some(j)
    } else {
        key_position(d, key, j + 1)
    }
}

/// Whether `key` is bound in the map `d` to a value equal to `value`.
pub open spec fn dict_value_equal(
    st: StoreView,
    d: Seq<(DatumView, DatumView)>,
    key: DatumView,
    value: DatumView,
    fuel: nat,
) -> Option<bool>
    decreases fuel, value, 2nat, 0nat,
{
    match key_position(d, key, 0) {
        None => Some(false),
        Some(j) => if j < d.len() {
            datum_equal(st, value, d[j as int].1, fuel)
        } else {
            Some(false)
        },
    }
}

/// Whether each pair of `x`, from `i` on, is bound alike in `y`.
pub open spec fn dict_equal(
    st: StoreView,
    x: Seq<(DatumView, DatumView)>,
    y: Seq<(DatumView, DatumView)>,
    i: nat,
    fuel: nat,
) -> Option<bool>
    decreases fuel, x, 0nat, x.len() - i,
{
    if i >= x.len() {
        Some(true)
    } else {
        then_eq(
            dict_value_equal(st, y, x[i as int].0, x[i as int].1, fuel),
            dict_equal(st, x, y, i + 1, fuel),
        )
    }
}

/// Two environments compared frame by frame from `i` on: the same frame is
/// equal to itself; two others by their bindings, one frame deeper. `owner`
/// is the datum whose environments these are.
pub open spec fn env_equal(
    st: StoreView,
    x: Seq<usize>,
    y: Seq<usize>,
    i: nat,
    fuel: nat,
    owner: DatumView,
) -> Option<bool>
    decreases fuel, owner, 0nat, x.len() - i,
{
    if x.len() != y.len() {
        Some(false)
    } else if i >= x.len() {
        Some(true)
    } else if x[i as int] == y[i as int] {
        env_equal(st, x, y, i + 1, fuel, owner)
    } else if fuel == 0 {
        None
    } else {
        then_eq(
            bindings_equal(st, frame_at(st, x[i as int]), frame_at(st, y[i as int]), 0, (fuel - 1) as nat),
            env_equal(st, x, y, i + 1, fuel, owner),
        )
    }
}

/// Two frames' bindings compared binding by binding from `k` on: the names,
/// then the values.
pub open spec fn bindings_equal(st: StoreView, f: FrameView, g: FrameView, k: nat, fuel: nat) -> Option<
    bool,
>
    decreases fuel, f, 0nat, f.len() - k,
{
    if f.len() != g.len() {
        Some(false)
    } else if k >= f.len() {
        Some(true)
    } else {
        then_eq(
            Some(f[k as int].0 == g[k as int].0),
            then_eq(
                datum_equal(st, f[k as int].1, g[k as int].1, fuel),
                bindings_equal(st, f, g, k + 1, fuel),
            ),
        )
    }
}

/// Whether a datum holds no environment, vex, function or map, at any depth:
/// data whose contents are all in the datum itself, in order.
pub open spec fn plain(d: DatumView) -> bool
    decreases d,
{
    match d {
        DatumView::Env(_) => false,
        DatumView::Vex(_) => false,
        DatumView::Fun(_) => false,
        DatumView::Dict(_, _) => false,
        DatumView::List(x, _) => forall|i: int| 0 <= i < x.len() ==> plain(#[trigger] x[i]),
        DatumView::Vec(x, _) => forall|i: int| 0 <= i < x.len() ==> plain(#[trigger] x[i]),
        DatumView::VecLit(x, _) => forall|i: int| 0 <= i < x.len() ==> plain(#[trigger] x[i]),
        DatumView::MapLit(x, _) => forall|i: int|
            0 <= i < x.len() ==> plain(#[trigger] x[i].0) && plain(x[i].1),
        _ => true,
    }
}

proof fn lemma_items_plain(st: StoreView, x: Seq<DatumView>, y: Seq<DatumView>, i: nat, fuel: nat)
    requires
        i <= x.len(),
        forall|j: int| 0 <= j < x.len() ==> plain(#[trigger] x[j]),
    ensures
        items_equal(st, x, y, i, fuel) == Some(
            x.len() == y.len() && x.subrange(i as int, x.len() as int) == y.subrange(
                i as int,
                y.len() as int,
            ),
        ),
    decreases x, 0nat, x.len() - i,
{
    if x.len() == y.len() && i < x.len() {
        assert(decreases_to!(x => x[i as int]));
        lemma_plain_equal(st, x[i as int], y[i as int], fuel);
        lemma_items_plain(st, x, y, i + 1, fuel);
        let xs = x.subrange(i as int, x.len() as int);
        let ys = y.subrange(i as int, y.len() as int);
        assert(xs[0] == x[i as int] && ys[0] == y[i as int]);
        assert(xs.drop_first() =~= x.subrange((i + 1) as int, x.len() as int));
        assert(ys.drop_first() =~= y.subrange((i + 1) as int, y.len() as int));
        if x[i as int] == y[i as int] && xs.drop_first() == ys.drop_first() {
            assert forall|k: int| 0 <= k < xs.len() implies xs[k] == ys[k] by {
                if k > 0 {
                    assert(xs[k] == xs.drop_first()[k - 1]);
                    assert(ys[k] == ys.drop_first()[k - 1]);
                }
            }
            assert(xs =~= ys);
        }
    } else if x.len() == y.len() {
        assert(x.subrange(i as int, x.len() as int) =~= y.subrange(i as int, y.len() as int));
    }
}

proof fn lemma_pairs_plain(
    st: StoreView,
    x: Seq<(DatumView, DatumView)>,
    y: Seq<(DatumView, DatumView)>,
    i: nat,
    fuel: nat,
)
    requires
        i <= x.len(),
        forall|j: int| 0 <= j < x.len() ==> plain(#[trigger] x[j].0) && plain(x[j].1),
    ensures
        pairs_equal(st, x, y, i, fuel) == Some(
            x.len() == y.len() && x.subrange(i as int, x.len() as int) == y.subrange(
                i as int,
                y.len() as int,
            ),
        ),
    decreases x, 0nat, x.len() - i,
{
    if x.len() == y.len() && i < x.len() {
        assert(decreases_to!(x => x[i as int]));
        assert(decreases_to!(x[i as int] => x[i as int].0));
        assert(decreases_to!(x[i as int] => x[i as int].1));
        lemma_plain_equal(st, x[i as int].0, y[i as int].0, fuel);
        lemma_plain_equal(st, x[i as int].1, y[i as int].1, fuel);
        lemma_pairs_plain(st, x, y, i + 1, fuel);
        let xs = x.subrange(i as int, x.len() as int);
        let ys = y.subrange(i as int, y.len() as int);
        assert(xs[0] == x[i as int] && ys[0] == y[i as int]);
        assert(xs.drop_first() =~= x.subrange((i + 1) as int, x.len() as int));
        assert(ys.drop_first() =~= y.subrange((i + 1) as int, y.len() as int));
        if x[i as int] == y[i as int] && xs.drop_first() == ys.drop_first() {
            assert forall|k: int| 0 <= k < xs.len() implies xs[k] == ys[k] by {
                if k > 0 {
                    assert(xs[k] == xs.drop_first()[k - 1]);
                    assert(ys[k] == ys.drop_first()[k - 1]);
                }
            }
            assert(xs =~= ys);
        }
    } else if x.len() == y.len() {
        assert(x.subrange(i as int, x.len() as int) =~= y.subrange(i as int, y.len() as int));
    }
}

proof fn lemma_plain_equal(st: StoreView, a: DatumView, b: DatumView, fuel: nat)
    requires
        plain(a),
    ensures
        datum_equal(st, a, b, fuel) == Some(a == b),
    decreases a, 1nat, 0nat,
{
    match (a, b) {
        (DatumView::List(x, s), DatumView::List(y, t)) => {
            lemma_items_plain(st, x, y, 0, fuel);
            assert(x.subrange(0, x.len() as int) =~= x);
            assert(y.subrange(0, y.len() as int) =~= y);
        },
        (DatumView::Vec(x, s), DatumView::Vec(y, t)) => {
            lemma_items_plain(st, x, y, 0, fuel);
            assert(x.subrange(0, x.len() as int) =~= x);
            assert(y.subrange(0, y.len() as int) =~= y);
        },
        (DatumView::VecLit(x, s), DatumView::VecLit(y, t)) => {
            lemma_items_plain(st, x, y, 0, fuel);
            assert(x.subrange(0, x.len() as int) =~= x);
            assert(y.subrange(0, y.len() as int) =~= y);
        },
        (DatumView::MapLit(x, s), DatumView::MapLit(y, t)) => {
            lemma_pairs_plain(st, x, y, 0, fuel);
            assert(x.subrange(0, x.len() as int) =~= x);
            assert(y.subrange(0, y.len() as int) =~= y);
        },
        _ => {},
    }
}

/// On data that hold no environment, vex, function or map, comparing by
/// contents answers at any depth, and answers whether the two are the same
/// datum: the same variant, text, numbers, spans and items.
pub proof fn law_plain_data_compare_by_value(st: StoreView, a: DatumView, b: DatumView, fuel: nat)
    requires
        plain(a),
    ensures
        datum_equal(st, a, b, fuel) == Some(a == b),
{
    lemma_plain_equal(st, a, b, fuel);
}

proof fn lemma_env_equal_self(st: StoreView, x: Seq<usize>, i: nat, fuel: nat, owner: DatumView)
    ensures
        env_equal(st, x, x, i, fuel, owner) == Some(true),
    decreases x.len() - i,
{
    if i < x.len() {
        lemma_env_equal_self(st, x, i + 1, fuel, owner);
    }
}

/// An environment is equal to itself, without looking into its frames.
pub proof fn law_env_equal_to_itself(st: StoreView, x: Seq<usize>, fuel: nat)
    ensures
        datum_equal(st, DatumView::Env(x), DatumView::Env(x), fuel) == Some(true),
{
    lemma_env_equal_self(st, x, 0, fuel, DatumView::Env(x));
}

/// Two environments of different lengths differ; two with frames that
/// hold no bindings are equal once one frame deep may be looked into.
pub proof fn law_env_equal_by_frames(st: StoreView, x: Seq<usize>, y: Seq<usize>, fuel: nat)
    ensures
        x.len() != y.len() ==> datum_equal(st, DatumView::Env(x), DatumView::Env(y), fuel)
            == Some(false),
        (x.len() == y.len() && fuel > 0 && forall|i: int|
            0 <= i < x.len() ==> frame_at(st, #[trigger] x[i]).len() == 0 && frame_at(st, y[i]).len()
                == 0) ==> datum_equal(st, DatumView::Env(x), DatumView::Env(y), fuel) == Some(true),
{
    if x.len() == y.len() && fuel > 0 && forall|i: int|
        0 <= i < x.len() ==> frame_at(st, #[trigger] x[i]).len() == 0 && frame_at(st, y[i]).len()
            == 0 {
        lemma_env_equal_empty(st, x, y, 0, fuel, DatumView::Env(x));
    }
}

proof fn lemma_env_equal_empty(
    st: StoreView,
    x: Seq<usize>,
    y: Seq<usize>,
    i: nat,
    fuel: nat,
    owner: DatumView,
)
    requires
        x.len() == y.len(),
        fuel > 0,
        forall|j: int|
            0 <= j < x.len() ==> frame_at(st, #[trigger] x[j]).len() == 0 && frame_at(st, y[j]).len() == 0,
    ensures
        env_equal(st, x, y, i, fuel, owner) == Some(true),
    decreases x.len() - i,
{
    if i < x.len() {
        lemma_env_equal_empty(st, x, y, i + 1, fuel, owner);
        assert(frame_at(st, x[i as int]).len() == 0 && frame_at(st, y[i as int]).len() == 0);
        assert(bindings_equal(
            st,
            frame_at(st, x[i as int]),
            frame_at(st, y[i as int]),
            0,
            (fuel - 1) as nat,
        ) == Some(true));
    }
}

/// What comparing one part and then, if it was equal, the rest gives, where
/// the rest is already known.
fn then_known(first: Option<bool>, rest: bool) -> (r: Option<bool>)
    ensures
        r == then_eq(first, Some(rest)),
{
    match first {
        Some(true) => Some(rest),
        other => other,
    }
}

/// Compares two data by contents, at most `fuel` frames deep: `Some` of
/// whether they are equal, or `None` where the comparison would go deeper.
pub fn equal_datum(store: &Store, a: &Datum, b: &Datum, fuel: u64) -> (r: Option<bool>)
    ensures
        r == datum_equal(store@, a@, b@, fuel as nat),
    decreases fuel, a@, 1nat, 0nat,
{
    proof {
        lemma_view_seqs(*a);
        lemma_view_seqs(*b);
        lemma_view_bodies(*a);
        lemma_view_bodies(*b);
    }
    match (a, b) {
        (Datum::Nil, Datum::Nil) => Some(true),
        (Datum::Bool(x, s), Datum::Bool(y, t)) => Some(*x == *y && same_opt_span(s, t)),
        (Datum::Int(x, s), Datum::Int(y, t)) => Some(*x == *y && same_opt_span(s, t)),
        (Datum::String(x, s), Datum::String(y, t)) => Some(**x == **y && same_opt_span(s, t)),
        (Datum::Symbol(x, s), Datum::Symbol(y, t)) => Some(**x == **y && same_opt_span(s, t)),
        (Datum::Prim(x), Datum::Prim(y)) => Some(*x == *y),
        (Datum::Keyword(x, s), Datum::Keyword(y, t)) => Some(**x == **y && same_opt_span(s, t)),
        (Datum::List(x, s), Datum::List(y, t)) => then_known(
            equal_items(store, x, y, fuel),
            same_opt_spans(s, t),
        ),
        (Datum::Vec(x, s), Datum::Vec(y, t)) => then_known(
            equal_items(store, x, y, fuel),
            same_opt_spans(s, t),
        ),
        (Datum::Dict(x, s), Datum::Dict(y, t)) => {
            let first = if x.len() == y.len() {
                equal_dict(store, x, y, fuel)
            } else {
                Some(false)
            };
            then_known(first, same_opt_spans(s, t))
        },
        (Datum::VecLit(x, s), Datum::VecLit(y, t)) => then_known(
            equal_items(store, x, y, fuel),
            same_opt_spans(s, t),
        ),
        (Datum::MapLit(x, s), Datum::MapLit(y, t)) => then_known(
            equal_pairs(store, x, y, fuel),
            same_opt_spans(s, t),
        ),
        (Datum::Vex(x), Datum::Vex(y)) => {
            if !(same_params(&x.params, &y.params) && same_param(&x.env, &y.env)) {
                return Some(false);
            }
            match equal_env(store, &x.closure, &y.closure, fuel, Ghost(a@)) {
                Some(true) => then_known(
                    equal_items(store, &x.body, &y.body, fuel),
                    same_opt_spans(&x.span, &y.span),
                ),
                other => other,
            }
        },
        (Datum::Fun(x), Datum::Fun(y)) => {
            if !same_params(&x.params, &y.params) {
                return Some(false);
            }
            match equal_env(store, &x.closure, &y.closure, fuel, Ghost(a@)) {
                Some(true) => then_known(
                    equal_items(store, &x.body, &y.body, fuel),
                    same_opt_spans(&x.span, &y.span),
                ),
                other => other,
            }
        },
        (Datum::Env(x), Datum::Env(y)) => equal_env(store, x, y, fuel, Ghost(a@)),
        (Datum::Span(x), Datum::Span(y)) => Some(x.same(y)),
        (Datum::SurroundSpan(x0, x1), Datum::SurroundSpan(y0, y1)) => Some(
            x0.same(y0) && x1.same(y1),
        ),
        _ => Some(false),
    }
}

fn equal_items(store: &Store, x: &Vec<Datum>, y: &Vec<Datum>, fuel: u64) -> (r: Option<bool>)
    ensures
        r == items_equal(store@, datums_view(x@), datums_view(y@), 0, fuel as nat),
    decreases fuel, datums_view(x@), 0nat, 0nat,
{
    let ghost xs = datums_view(x@);
    let ghost ys = datums_view(y@);
    if x.len() != y.len() {
        return Some(false);
    }
    let n = x.len();
    for i in 0..n
        invariant
            n == x.len(),
            n == y.len(),
            xs == datums_view(x@),
            ys == datums_view(y@),
            items_equal(store@, xs, ys, 0, fuel as nat) == items_equal(store@, xs, ys, i as nat, fuel as nat),
    {
        proof {
            assert(xs[i as int] == x@[i as int]@);
            assert(ys[i as int] == y@[i as int]@);
            assert(decreases_to!(xs => xs[i as int]));
        }
        match equal_datum(store, &x[i], &y[i], fuel) {
            Some(true) => {},
            other => {
                return other;
            },
        }
    }
    Some(true)
}

fn equal_pairs(store: &Store, x: &Vec<(Datum, Datum)>, y: &Vec<(Datum, Datum)>, fuel: u64) -> (r:
    Option<bool>)
    ensures
        r == pairs_equal(store@, pairs_view(x@), pairs_view(y@), 0, fuel as nat),
    decreases fuel, pairs_view(x@), 0nat, 0nat,
{
    let ghost xs = pairs_view(x@);
    let ghost ys = pairs_view(y@);
    if x.len() != y.len() {
        return Some(false);
    }
    let n = x.len();
    for i in 0..n
        invariant
            n == x.len(),
            n == y.len(),
            xs == pairs_view(x@),
            ys == pairs_view(y@),
            pairs_equal(store@, xs, ys, 0, fuel as nat) == pairs_equal(store@, xs, ys, i as nat, fuel as nat),
    {
        proof {
            assert(xs[i as int] == (x@[i as int].0@, x@[i as int].1@));
            assert(ys[i as int] == (y@[i as int].0@, y@[i as int].1@));
            assert(decreases_to!(xs => xs[i as int]));
            assert(decreases_to!(xs[i as int] => xs[i as int].0));
            assert(decreases_to!(xs[i as int] => xs[i as int].1));
        }
        match equal_datum(store, &x[i].0, &y[i].0, fuel) {
            Some(true) => {},
            other => {
                return other;
            },
        }
        match equal_datum(store, &x[i].1, &y[i].1, fuel) {
            Some(true) => {},
            other => {
                return other;
            },
        }
    }
    Some(true)
}

/// Whether `key` is bound in the map `d` to a value equal to `value`.
fn dict_value(store: &Store, d: &Vec<(Datum, Datum)>, key: &Datum, value: &Datum, fuel: u64) -> (r:
    Option<bool>)
    ensures
        r == dict_value_equal(store@, pairs_view(d@), key@, value@, fuel as nat),
    decreases fuel, value@, 2nat, 0nat,
{
    let ghost ds = pairs_view(d@);
    let n = d.len();
    let mut j: usize = 0;
    while j < n
        invariant
            n == d.len(),
            ds == pairs_view(d@),
            j <= n,
            key_position(ds, key@, 0) == key_position(ds, key@, j as nat),
        decreases n - j,
    {
        assert(ds[j as int] == (d@[j as int].0@, d@[j as int].1@));
        if same_datum(&d[j].0, key) {
            return equal_datum(store, value, &d[j].1, fuel);
        }
        j = j + 1;
    }
    Some(false)
}

fn equal_dict(store: &Store, x: &Vec<(Datum, Datum)>, y: &Vec<(Datum, Datum)>, fuel: u64) -> (r:
    Option<bool>)
    ensures
        r == dict_equal(store@, pairs_view(x@), pairs_view(y@), 0, fuel as nat),
    decreases fuel, pairs_view(x@), 0nat, 0nat,
{
    let ghost xs = pairs_view(x@);
    let ghost ys = pairs_view(y@);
    let n = x.len();
    for i in 0..n
        invariant
            n == x.len(),
            xs == pairs_view(x@),
            ys == pairs_view(y@),
            dict_equal(store@, xs, ys, 0, fuel as nat) == dict_equal(store@, xs, ys, i as nat, fuel as nat),
    {
        proof {
            assert(xs[i as int] == (x@[i as int].0@, x@[i as int].1@));
            assert(decreases_to!(xs => xs[i as int]));
            assert(decreases_to!(xs[i as int] => xs[i as int].1));
        }
        match dict_value(store, y, &x[i].0, &x[i].1, fuel) {
            Some(true) => {},
            other => {
                return other;
            },
        }
    }
    Some(true)
}

fn equal_env(store: &Store, x: &Env, y: &Env, fuel: u64, Ghost(owner): Ghost<DatumView>) -> (r:
    Option<bool>)
    ensures
        r == env_equal(store@, x@, y@, 0, fuel as nat, owner),
    decreases fuel, owner, 0nat, 0nat,
{
    let xs = x.frame_indices();
    let ys = y.frame_indices();
    if xs.len() != ys.len() {
        return Some(false);
    }
    let n = xs.len();
    let empty = Frame::new();
    for i in 0..n
        invariant
            n == xs@.len(),
            n == ys@.len(),
            xs@ == x@,
            ys@ == y@,
            frame_view(empty) == Seq::<(Seq<char>, DatumView)>::empty(),
            env_equal(store@, x@, y@, 0, fuel as nat, owner) == env_equal(
                store@,
                x@,
                y@,
                i as nat,
                fuel as nat,
                owner,
            ),
    {
        let p = xs[i];
        let q = ys[i];
        if p != q {
            if fuel == 0 {
                return None;
            }
            let fp = if p < store.frames.len() {
                &store.frames[p]
            } else {
                &empty
            };
            let fq = if q < store.frames.len() {
                &store.frames[q]
            } else {
                &empty
            };
            assert(frame_view(*fp) == frame_at(store@, p));
            assert(frame_view(*fq) == frame_at(store@, q));
            match equal_bindings(store, fp, fq, fuel - 1) {
                Some(true) => {},
                other => {
                    return other;
                },
            }
        }
    }
    Some(true)
}

fn equal_bindings(store: &Store, f: &Frame, g: &Frame, fuel: u64) -> (r: Option<bool>)
    ensures
        r == bindings_equal(store@, frame_view(*f), frame_view(*g), 0, fuel as nat),
    decreases fuel, frame_view(*f), 0nat, 0nat,
{
    let ghost fs = frame_view(*f);
    let ghost gs = frame_view(*g);
    if f.bindings.len() != g.bindings.len() {
        return Some(false);
    }
    let n = f.bindings.len();
    for k in 0..n
        invariant
            n == f.bindings.len(),
            n == g.bindings.len(),
            fs == frame_view(*f),
            gs == frame_view(*g),
            bindings_equal(store@, fs, gs, 0, fuel as nat) == bindings_equal(
                store@,
                fs,
                gs,
                k as nat,
                fuel as nat,
            ),
    {
        proof {
            assert(fs[k as int] == (f.bindings@[k as int].0@, f.bindings@[k as int].1@));
            assert(gs[k as int] == (g.bindings@[k as int].0@, g.bindings@[k as int].1@));
            assert(decreases_to!(fs => fs[k as int]));
            assert(decreases_to!(fs[k as int] => fs[k as int].1));
        }
        if f.bindings[k].0 != g.bindings[k].0 {
            return Some(false);
        }
        match equal_datum(store, &f.bindings[k].1, &g.bindings[k].1, fuel) {
            Some(true) => {},
            other => {
                return other;
            },
        }
    }
    Some(true)
}

// ---------------------------------------------------------------------------
// Maps
//
// A map datum holds its pairs in a vector, each key once. Keys are compared
// by their views.
// ---------------------------------------------------------------------------

/// The pairs of `d` with `value` put at `key`: the pair whose key equals
/// `key` takes the new pair's place, else the new pair goes at the end.
pub open spec fn dict_insert(
    d: Seq<(DatumView, DatumView)>,
    key: DatumView,
    value: DatumView,
) -> Seq<(DatumView, DatumView)>
    decreases d.len(),
{
    if d.len() == 0 {
        seq![(key, value)]
    } else if d[0].0 == key {
        d.update(0, (key, value))
    } else {
        seq![d[0]] + dict_insert(d.drop_first(), key, value)
    }
}

/// The map that a sequence of pairs builds, inserting them first to last.
pub open spec fn dict_of(pairs: Seq<(DatumView, DatumView)>) -> Seq<(DatumView, DatumView)>
    decreases pairs.len(),
{
    if pairs.len() == 0 {
        Seq::empty()
    } else {
        dict_insert(dict_of(pairs.drop_last()), pairs.last().0, pairs.last().1)
    }
}

/// Whether no key occurs twice among the pairs.
pub open spec fn keys_distinct(d: Seq<(DatumView, DatumView)>) -> bool {
    forall|i: int, j: int| 0 <= i < j < d.len() ==> #[trigger] d[i].0 != #[trigger] d[j].0
}

proof fn lemma_dict_insert_at(
    d: Seq<(DatumView, DatumView)>,
    key: DatumView,
    value: DatumView,
    i: int,
)
    requires
        0 <= i < d.len(),
        d[i].0 == key,
        forall|j: int| 0 <= j < i ==> #[trigger] d[j].0 != key,
    ensures
        dict_insert(d, key, value) == d.update(i, (key, value)),
    decreases i,
{
    if i > 0 {
        assert(d[0].0 != key);
        let t = d.drop_first();
        assert forall|j: int| 0 <= j < i - 1 implies #[trigger] t[j].0 != key by {
            assert(t[j] == d[j + 1]);
        }
        lemma_dict_insert_at(t, key, value, i - 1);
        assert(seq![d[0]] + t.update(i - 1, (key, value)) =~= d.update(i, (key, value)));
    }
}

proof fn lemma_dict_insert_new(d: Seq<(DatumView, DatumView)>, key: DatumView, value: DatumView)
    requires
        forall|j: int| 0 <= j < d.len() ==> #[trigger] d[j].0 != key,
    ensures
        dict_insert(d, key, value) == d.push((key, value)),
    decreases d.len(),
{
    if d.len() > 0 {
        assert(d[0].0 != key);
        let t = d.drop_first();
        assert forall|j: int| 0 <= j < t.len() implies #[trigger] t[j].0 != key by {
            assert(t[j] == d[j + 1]);
        }
        lemma_dict_insert_new(t, key, value);
        assert(seq![d[0]] + t.push((key, value)) =~= d.push((key, value)));
    }
}

proof fn lemma_dict_insert_keys(d: Seq<(DatumView, DatumView)>, key: DatumView, value: DatumView)
    ensures
        forall|j: int|
            0 <= j < dict_insert(d, key, value).len() ==> #[trigger] dict_insert(d, key, value)[j].0
                == key || exists|i: int| 0 <= i < d.len() && #[trigger] d[i].0 == dict_insert(
                d,
                key,
                value,
            )[j].0,
        keys_distinct(d) ==> keys_distinct(dict_insert(d, key, value)),
        dict_insert(d, key, value).contains((key, value)),
    decreases d.len(),
{
    let r = dict_insert(d, key, value);
    if d.len() == 0 {
        assert(r[0] == (key, value));
    } else if d[0].0 == key {
        assert(r[0] == (key, value));
        assert forall|j: int| 0 <= j < r.len() implies #[trigger] r[j].0 == key || exists|i: int|
            0 <= i < d.len() && #[trigger] d[i].0 == r[j].0 by {
            if j > 0 {
                assert(d[j].0 == r[j].0);
            }
        }
    } else {
        let t = d.drop_first();
        let rt = dict_insert(t, key, value);
        lemma_dict_insert_keys(t, key, value);
        assert(r == seq![d[0]] + rt);
        assert forall|j: int| 0 <= j < r.len() implies #[trigger] r[j].0 == key || exists|i: int|
            0 <= i < d.len() && #[trigger] d[i].0 == r[j].0 by {
            if j == 0 {
                assert(d[0].0 == r[0].0);
            } else {
                assert(r[j] == rt[j - 1]);
                if rt[j - 1].0 != key {
                    let i = choose|i: int| 0 <= i < t.len() && #[trigger] t[i].0 == rt[j - 1].0;
                    assert(d[i + 1].0 == r[j].0);
                }
            }
        }
        if keys_distinct(d) {
            assert forall|a: int, b: int| 0 <= a < b < t.len() implies #[trigger] t[a].0
                != #[trigger] t[b].0 by {
                assert(t[a] == d[a + 1] && t[b] == d[b + 1]);
            }
            assert forall|a: int, b: int| 0 <= a < b < r.len() implies #[trigger] r[a].0
                != #[trigger] r[b].0 by {
                if a == 0 {
                    assert(r[b] == rt[b - 1]);
                    if rt[b - 1].0 != key {
                        let i = choose|i: int| 0 <= i < t.len() && #[trigger] t[i].0 == rt[b - 1].0;
                        assert(t[i] == d[i + 1]);
                        assert(d[0].0 != d[i + 1].0);
                    }
                } else {
                    assert(r[a] == rt[a - 1] && r[b] == rt[b - 1]);
                }
            }
        }
        let w = choose|w: int| 0 <= w < rt.len() && rt[w] == (key, value);
        assert(r[w + 1] == (key, value));
    }
}

/// A map literal's value holds each key once.
pub proof fn law_map_keys_once(pairs: Seq<(DatumView, DatumView)>)
    ensures
        keys_distinct(dict_of(pairs)),
    decreases pairs.len(),
{
    if pairs.len() > 0 {
        law_map_keys_once(pairs.drop_last());
        lemma_dict_insert_keys(dict_of(pairs.drop_last()), pairs.last().0, pairs.last().1);
    }
}

/// Of the pairs a map is built from, the last one stands in the map: a later
/// pair with an equal key replaces an earlier one.
pub proof fn law_map_last_pair_wins(pairs: Seq<(DatumView, DatumView)>)
    requires
        pairs.len() > 0,
    ensures
        dict_of(pairs).contains(pairs.last()),
{
    lemma_dict_insert_keys(dict_of(pairs.drop_last()), pairs.last().0, pairs.last().1);
}

/// Puts `value` at `key` among a map's pairs.
fn insert_pair(pairs: &mut Vec<(Datum, Datum)>, key: Datum, value: Datum)
    ensures
        pairs_view(final(pairs)@) == dict_insert(pairs_view(old(pairs)@), key@, value@),
{
    let ghost d = pairs_view(pairs@);
    let n = pairs.len();
    let mut i: usize = 0;
    while i < n
        invariant
            n == pairs.len(),
            pairs@ == old(pairs)@,
            d == pairs_view(old(pairs)@),
            i <= n,
            forall|j: int| 0 <= j < i ==> #[trigger] d[j].0 != key@,
        decreases n - i,
    {
        if same_datum(&pairs[i].0, &key) {
            proof {
                lemma_dict_insert_at(d, key@, value@, i as int);
            }
            let ghost kv = key@;
            let ghost vv = value@;
            pairs.set(i, (key, value));
            proof {
                assert(pairs_view(pairs@) =~= d.update(i as int, (kv, vv)));
            }
            return;
        }
        i = i + 1;
    }
    proof {
        lemma_dict_insert_new(d, key@, value@);
    }
    let ghost kv = key@;
    let ghost vv = value@;
    pairs.push((key, value));
    proof {
        assert(pairs_view(pairs@) =~= d.push((kv, vv)));
    }
}

/// The map that a sequence of pairs builds: each key once, with the value
/// of its last pair, in the order in which the keys first occur.
pub fn dict_from_pairs(pairs: &Vec<(Datum, Datum)>) -> (r: Vec<(Datum, Datum)>)
    ensures
        pairs_view(r@) == dict_of(pairs_view(pairs@)),
{
    let ghost all = pairs_view(pairs@);
    let mut out: Vec<(Datum, Datum)> = Vec::new();
    let n = pairs.len();
    assert(all.take(0) =~= Seq::<(DatumView, DatumView)>::empty());
    assert(pairs_view(out@) =~= Seq::<(DatumView, DatumView)>::empty());
    for i in 0..n
        invariant
            n == pairs.len(),
            all == pairs_view(pairs@),
            pairs_view(out@) == dict_of(all.take(i as int)),
    {
        let k = clone_datum(&pairs[i].0);
        let v = clone_datum(&pairs[i].1);
        proof {
            let s = all.take(i + 1);
            assert(s.drop_last() =~= all.take(i as int));
            assert(s.last() == (k@, v@));
        }
        insert_pair(&mut out, k, v);
    }
    assert(all.take(n as int) =~= all);
    out
}

// ---------------------------------------------------------------------------
// Frames, stores and environments
// ---------------------------------------------------------------------------

impl Default for Frame {
    fn default() -> (r: Frame)
        ensures
            frame_view(r) == Seq::<(Seq<char>, DatumView)>::empty(),
    {
        Frame::new()
    }
}

impl Frame {
    pub fn new() -> (r: Frame)
        ensures
            frame_view(r) == Seq::<(Seq<char>, DatumView)>::empty(),
    {
        let r = Frame { bindings: Vec::new() };
        assert(frame_view(r) =~= Seq::<(Seq<char>, DatumView)>::empty());
        r
    }

    /// Adds a binding, shadowing any earlier binding of the name.
    pub fn define(&mut self, name: String, value: Datum)
        ensures
            frame_view(*final(self)) == frame_view(*old(self)).push((name@, value@)),
    {
        self.bindings.push((name, value));
        assert(frame_view(*self) =~= frame_view(*old(self)).push((name@, value@)));
    }

    /// The value of the latest binding of `name`, if any.
    pub fn lookup(&self, name: &str) -> (r: Option<Datum>)
        ensures
            match r {
                Some(v) => frame_lookup(frame_view(*self), name@) == Some(v@),
                None => frame_lookup(frame_view(*self), name@) is None,
            },
    {
        let key = name.to_owned();
        let mut i = self.bindings.len();
        assert(frame_view(*self).take(i as int) =~= frame_view(*self));
        while i > 0
            invariant
                i <= self.bindings.len(),
                key@ == name@,
                frame_lookup(frame_view(*self), name@) == frame_lookup(
                    frame_view(*self).take(i as int),
                    name@,
                ),
            decreases i,
        {
            let ghost f = frame_view(*self).take(i as int);
            assert(f.drop_last() =~= frame_view(*self).take(i - 1));
            i = i - 1;
            if self.bindings[i].0 == key {
                return Some(clone_datum(&self.bindings[i].1));
            }
        }
        None
    }

    /// Changes the value of the latest binding of `name`. Where there is
    /// none, hands the value back.
    pub fn update(&mut self, name: &str, value: Datum) -> (r: Result<(), Datum>)
        ensures
            match frame_update(frame_view(*old(self)), name@, value@) {
                Some(g) => r is Ok && frame_view(*final(self)) == g,
                None => r matches Err(v) && v@ == value@ && *final(self) == *old(self),
            },
    {
        let key = name.to_owned();
        let mut i = self.bindings.len();
        let ghost orig = frame_view(*self);
        while i > 0
            invariant
                i <= self.bindings.len(),
                key@ == name@,
                *self == *old(self),
                orig == frame_view(*old(self)),
                forall|j: int| i <= j < orig.len() ==> orig[j].0 != name@,
            decreases i,
        {
            i = i - 1;
            if self.bindings[i].0 == key {
                let ghost before = frame_view(*self);
                let (k, _) = self.bindings.remove(i);
                self.bindings.insert(i, (k, value));
                proof {
                    let after = frame_view(*self);
                    assert(after =~= before.update(i as int, (name@, value@)));
                    lemma_frame_update_at(before, name@, value@, i as int);
                }
                return Ok(());
            }
        }
        proof {
            lemma_frame_update_none(orig, name@, value@);
        }
        Err(value)
    }
}

/// Where the latest binding of `name` is at `i`, update replaces it there.
proof fn lemma_frame_update_at(f: FrameView, name: Seq<char>, value: DatumView, i: int)
    requires
        0 <= i < f.len(),
        f[i].0 == name,
        forall|j: int| i < j < f.len() ==> f[j].0 != name,
    ensures
        frame_update(f, name, value) == Some(f.update(i, (name, value))),
    decreases f.len(),
{
    if i == f.len() - 1 {
        assert(f.drop_last().push((name, value)) =~= f.update(i, (name, value)));
    } else {
        lemma_frame_update_at(f.drop_last(), name, value, i);
        assert(f.drop_last().update(i, (name, value)).push(f.last()) =~= f.update(i, (name, value)));
    }
}

/// Where no binding is named `name`, update changes nothing.
proof fn lemma_frame_update_none(f: FrameView, name: Seq<char>, value: DatumView)
    requires
        forall|j: int| 0 <= j < f.len() ==> f[j].0 != name,
    ensures
        frame_update(f, name, value) is None,
    decreases f.len(),
{
    if f.len() > 0 {
        lemma_frame_update_none(f.drop_last(), name, value);
    }
}

impl Store {
    pub fn new() -> (r: Store)
        ensures
            r@ == Seq::<FrameView>::empty(),
    {
        let r = Store { frames: Vec::new() };
        assert(r@ =~= Seq::<FrameView>::empty());
        r
    }

    /// Adds an empty frame and gives its index.
    /// How many frames the store holds.
    pub fn len(&self) -> (r: usize)
        ensures
            r == self@.len(),
    {
        self.frames.len()
    }

    pub fn push_frame(&mut self) -> (r: usize)
        ensures
            r == old(self)@.len(),
            final(self)@ == old(self)@.push(Seq::empty()),
    {
        let r = self.frames.len();
        self.frames.push(Frame::new());
        assert(self@ =~= old(self)@.push(Seq::empty()));
        r
    }
}

impl Env {
    #[verifier::type_invariant]
    spec fn has_a_frame(self) -> bool {
        self.frames.len() > 0
    }

    /// The positions of the environment's frames in the store, the innermost last.
    pub fn frame_indices(&self) -> (r: &Vec<usize>)
        ensures
            r@ == self@,
            r@.len() > 0,
    {
        proof {
            use_type_invariant(self);
        }
        &self.frames
    }

    /// A fresh environment with one empty frame.
    pub fn new_root(store: &mut Store) -> (r: Env)
        ensures
            final(store)@ == old(store)@.push(Seq::empty()),
            r@ == seq![old(store)@.len() as usize],
            env_wf(final(store)@, r@),
            forall|e: Seq<usize>| #[trigger] env_wf(old(store)@, e) ==> env_wf(final(store)@, e),
    {
        let i = store.push_frame();
        let mut frames = Vec::new();
        frames.push(i);
        assert(frames@ =~= seq![i]);
        Env { frames }
    }

    /// Binds `name` in the innermost frame, shadowing earlier bindings.
    pub fn define(&self, store: &mut Store, name: String, value: Datum)
        ensures
            final(store)@ == env_define(old(store)@, self@, name@, value@),
            forall|e: Seq<usize>| #[trigger] env_wf(old(store)@, e) ==> env_wf(final(store)@, e),
    {
        proof {
            use_type_invariant(self);
        }
        let n = self.frames.len();
        let last = self.frames[n - 1];
        if last < store.frames.len() {
            let ghost before = store@;
            let mut frame = store.frames.remove(last);
            frame.define(name, value);
            store.frames.insert(last, frame);
            proof {
                assert(self@.last() == last);
                assert(store@ =~= before.update(last as int, before[last as int].push((name@, value@))));
            }
        }
    }

    /// The value of `name` in the innermost frame that binds it.
    pub fn lookup(&self, store: &Store, name: &str) -> (r: Option<Datum>)
        ensures
            match r {
                Some(v) => env_lookup(store@, self@, name@) == Some(v@),
                None => env_lookup(store@, self@, name@) is None,
            },
    {
        let mut i = self.frames.len();
        assert(self@.take(i as int) =~= self@);
        while i > 0
            invariant
                i <= self.frames.len(),
                env_lookup(store@, self@, name@) == env_lookup(store@, self@.take(i as int), name@),
            decreases i,
        {
            let ghost e = self@.take(i as int);
            assert(e.drop_last() =~= self@.take(i - 1));
            i = i - 1;
            let idx = self.frames[i];
            if idx < store.frames.len() {
                assert(frame_at(store@, idx) == frame_view(store.frames@[idx as int]));
                match store.frames[idx].lookup(name) {
                    Some(v) => {
                        return Some(v);
                    },
                    None => {},
                }
            }
        }
        None
    }

    /// An environment with a new empty frame inside this one.
    pub fn frame(&self, store: &mut Store) -> (r: Env)
        ensures
            final(store)@ == old(store)@.push(Seq::empty()),
            r@ == self@.push(old(store)@.len() as usize),
            env_wf(old(store)@, self@) ==> env_wf(final(store)@, r@),
            forall|e: Seq<usize>| #[trigger] env_wf(old(store)@, e) ==> env_wf(final(store)@, e),
    {
        let mut frames = self.clone().frames;
        let i = store.push_frame();
        frames.push(i);
        Env { frames }
    }
}

impl Datum {
    pub fn is_truthy(&self) -> (r: bool)
        ensures
            r == is_truthy(self@),
    {
        match self {
            Datum::Nil => false,
            Datum::Bool(b, _) => *b,
            _ => true,
        }
    }
}

/// Only `nil` and `false` are falsy.
pub open spec fn is_truthy(d: DatumView) -> bool {
    match d {
        DatumView::Nil => false,
        DatumView::Bool(b, _) => b,
        _ => true,
    }
}

} // verus!

verus! {

// ---------------------------------------------------------------------------
// Laws of environments
// ---------------------------------------------------------------------------

/// Where the innermost frame of `env` is in the store, a name defined
/// through `env` is then found there.
/// Defining a name through an environment whose innermost frame is in the
/// store, then looking it up there, gives the value defined.
pub proof fn law_define_then_lookup(st: StoreView, env: Seq<usize>, name: Seq<char>, value: DatumView)
    requires
        env.len() > 0,
        env.last() < st.len(),
    ensures
        env_lookup(env_define(st, env, name, value), env, name) == Some(value),
{
    let st2 = env_define(st, env, name, value);
    assert(frame_at(st2, env.last()) == st[env.last() as int].push((name, value)));
}

/// A definition through `env` is seen through any environment that shares
/// its innermost frame, such as a closure made in it before the definition.
pub proof fn law_define_is_shared(
    st: StoreView,
    env: Seq<usize>,
    other: Seq<usize>,
    name: Seq<char>,
    value: DatumView,
)
    requires
        env_wf(st, env),
        env_wf(st, other),
        other.last() == env.last(),
    ensures
        env_lookup(env_define(st, env, name, value), other, name) == Some(value),
{
    law_define_then_lookup(st, env, name, value);
    let st2 = env_define(st, env, name, value);
    assert(frame_at(st2, other.last()) == frame_at(st2, env.last()));
}

/// Looking up in an environment sees, frame by frame, what the store holds.
pub proof fn lemma_lookup_frames_same(st1: StoreView, st2: StoreView, env: Seq<usize>, name: Seq<char>)
    requires
        forall|i: int| 0 <= i < env.len() ==> frame_lookup(frame_at(st1, #[trigger] env[i]), name)
            == frame_lookup(frame_at(st2, env[i]), name),
    ensures
        env_lookup(st1, env, name) == env_lookup(st2, env, name),
    decreases env.len(),
{
    if env.len() > 0 {
        assert(frame_lookup(frame_at(st1, env[env.len() - 1]), name) == frame_lookup(
            frame_at(st2, env[env.len() - 1]),
            name,
        ));
        lemma_lookup_frames_same(st1, st2, env.drop_last(), name);
    }
}

/// Defining one name leaves every other name as it was.
pub proof fn law_define_keeps_others(
    st: StoreView,
    env: Seq<usize>,
    name: Seq<char>,
    value: DatumView,
    other: Seq<usize>,
    name2: Seq<char>,
)
    requires
        name2 != name,
    ensures
        env_lookup(env_define(st, env, name, value), other, name2) == env_lookup(st, other, name2),
{
    let st2 = env_define(st, env, name, value);
    assert forall|i: int| 0 <= i < other.len() implies frame_lookup(
        frame_at(st2, #[trigger] other[i]),
        name2,
    ) == frame_lookup(frame_at(st, other[i]), name2) by {
        if env.len() > 0 && env.last() < st.len() && other[i] == env.last() {
            assert(frame_at(st2, other[i]).drop_last() == frame_at(st, other[i]));
        } else {
            assert(frame_at(st2, other[i]) == frame_at(st, other[i]));
        }
    }
    lemma_lookup_frames_same(st2, st, other, name2);
}

/// A new frame inside an environment sees everything the environment sees.
pub proof fn law_frame_sees_outer(st: StoreView, env: Seq<usize>, name: Seq<char>)
    requires
        st.len() < usize::MAX,
        forall|i: int| 0 <= i < env.len() ==> #[trigger] env[i] < st.len(),
    ensures
        env_lookup(st.push(Seq::empty()), env.push(st.len() as usize), name) == env_lookup(
            st,
            env,
            name,
        ),
{
    let st2 = st.push(Seq::empty());
    let env2 = env.push(st.len() as usize);
    assert(frame_at(st2, env2.last()) == Seq::<(Seq<char>, DatumView)>::empty());
    assert(env2.drop_last() =~= env);
    assert forall|i: int| 0 <= i < env.len() implies frame_lookup(
        frame_at(st2, #[trigger] env[i]),
        name,
    ) == frame_lookup(frame_at(st, env[i]), name) by {
        assert(frame_at(st2, env[i]) == frame_at(st, env[i]));
    }
    lemma_lookup_frames_same(st2, st, env, name);
}

/// Definitions made in a new inner frame are not seen from outside it.
pub proof fn law_inner_define_stays_inner(
    st: StoreView,
    env: Seq<usize>,
    name: Seq<char>,
    value: DatumView,
    name2: Seq<char>,
)
    requires
        st.len() < usize::MAX,
        forall|i: int| 0 <= i < env.len() ==> #[trigger] env[i] < st.len(),
    ensures
        env_lookup(
            env_define(st.push(Seq::empty()), env.push(st.len() as usize), name, value),
            env,
            name2,
        ) == env_lookup(st, env, name2),
{
    let st2 = st.push(Seq::empty());
    let st3 = env_define(st2, env.push(st.len() as usize), name, value);
    assert forall|i: int| 0 <= i < env.len() implies frame_lookup(
        frame_at(st3, #[trigger] env[i]),
        name2,
    ) == frame_lookup(frame_at(st, env[i]), name2) by {
        assert(frame_at(st3, env[i]) == frame_at(st, env[i]));
    }
    lemma_lookup_frames_same(st3, st, env, name2);
}

} // verus!
