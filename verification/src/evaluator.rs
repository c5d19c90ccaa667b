use crate::data::{
    clone_datum, datums_view, dict_from_pairs, dict_of, env_define, env_lookup, env_wf, frame_at,
    frame_lookup, fun_view, lemma_lookup_frames_same,
    is_truthy, law_define_keeps_others, law_define_then_lookup, lemma_view_bodies, lemma_view_seqs, pairs_view, vex_view,
    Datum, DatumView, Env, Fun, FunView, ParamView, Params, ParamsView, Prim, Store, StoreView,
    Vex, VexView,
};
use crate::source::{clone_opt_spans, opt_spans_view, Span, SpanView};
use std::rc::Rc;
use vstd::prelude::*;

verus! {

#[verifier::external_type_specification]
#[verifier::external_body]
pub struct ExIoError(std::io::Error);

/// Why an evaluation failed.
#[derive(Debug)]
pub enum Error {
    /// A symbol with no binding, and the environment it was looked up in.
    Undefined(Datum, Env),
    /// The head of a call evaluated to something that cannot be called.
    NotCallable(Datum, Option<(Span, Span)>),
    /// A vex or function was given fewer arguments than it has fixed parameters.
    TooFewArgs(Datum, Vec<Datum>, Params),
    /// A vex or function without a scoop was given more arguments than it has parameters.
    TooManyArgs(Datum, Vec<Datum>, Params),
    /// `define` was given something other than a symbol to bind.
    ExpectedBinding(Datum),
    IO(std::io::Error),
    /// A primitive was given too few arguments.
    PrimTooFewArgs(Prim, Vec<Datum>),
    /// A primitive was given too many arguments.
    PrimTooManyArgs(Prim, Vec<Datum>),
    /// The second argument of `eval` did not evaluate to an environment.
    ExpectedEnv(Datum),
    /// `fn` was given something other than a parameter vector.
    ExpectedParams(Datum),
    /// The evaluator has no implementation of this yet.
    Unimplemented(Prim),
    /// The evaluation ran out of fuel.
    Exhausted,
}

/// The mathematical model of an [`Error`].
pub enum ErrorView {
    Undefined(DatumView, Seq<usize>),
    NotCallable(DatumView, Option<(SpanView, SpanView)>),
    TooFewArgs(DatumView, Seq<DatumView>, ParamsView),
    TooManyArgs(DatumView, Seq<DatumView>, ParamsView),
    ExpectedBinding(DatumView),
    IO,
    PrimTooFewArgs(Prim, Seq<DatumView>),
    PrimTooManyArgs(Prim, Seq<DatumView>),
    ExpectedEnv(DatumView),
    ExpectedParams(DatumView),
    Unimplemented(Prim),
    Exhausted,
}

pub open spec fn error_view(e: Error) -> ErrorView {
    match e {
        Error::Undefined(d, env) => ErrorView::Undefined(d@, env@),
        Error::NotCallable(d, s) => ErrorView::NotCallable(d@, opt_spans_view(s)),
        Error::TooFewArgs(d, a, p) => ErrorView::TooFewArgs(d@, datums_view(a@), p@),
        Error::TooManyArgs(d, a, p) => ErrorView::TooManyArgs(d@, datums_view(a@), p@),
        Error::ExpectedBinding(d) => ErrorView::ExpectedBinding(d@),
        Error::IO(_) => ErrorView::IO,
        Error::PrimTooFewArgs(p, a) => ErrorView::PrimTooFewArgs(p, datums_view(a@)),
        Error::PrimTooManyArgs(p, a) => ErrorView::PrimTooManyArgs(p, datums_view(a@)),
        Error::ExpectedEnv(d) => ErrorView::ExpectedEnv(d@),
        Error::ExpectedParams(d) => ErrorView::ExpectedParams(d@),
        Error::Unimplemented(p) => ErrorView::Unimplemented(p),
        Error::Exhausted => ErrorView::Exhausted,
    }
}

pub open spec fn result_view(r: Result<Datum, Error>) -> Result<DatumView, ErrorView> {
    match r {
        Ok(d) => Ok(d@),
        Err(e) => Err(error_view(e)),
    }
}

pub open spec fn results_view(r: Result<Vec<Datum>, Error>) -> Result<Seq<DatumView>, ErrorView> {
    match r {
        Ok(d) => Ok(datums_view(d@)),
        Err(e) => Err(error_view(e)),
    }
}

pub open spec fn pair_results_view(r: Result<Vec<(Datum, Datum)>, Error>) -> Result<
    Seq<(DatumView, DatumView)>,
    ErrorView,
> {
    match r {
        Ok(d) => Ok(pairs_view(d@)),
        Err(e) => Err(error_view(e)),
    }
}

pub open spec fn params_result_view(r: Result<Params, Error>) -> Result<ParamsView, ErrorView> {
    match r {
        Ok(p) => Ok(p@),
        Err(e) => Err(error_view(e)),
    }
}

// ---------------------------------------------------------------------------
// What evaluation means
//
// Each function takes the store, gives back the store after the evaluation
// together with its outcome. The evaluation of a datum runs the evaluations
// inside it with one unit of fuel less, so fuel bounds their nesting.
// ---------------------------------------------------------------------------

/// Evaluates a datum: symbols are looked up, lists are calls, vector and map
/// literals evaluate their items (a map keeping the last value of each key),
/// and everything else evaluates to itself.
pub open spec fn eval_spec(st: StoreView, env: Seq<usize>, d: DatumView, fuel: nat) -> (
    StoreView,
    Result<DatumView, ErrorView>,
)
    decreases fuel, 0nat, 0nat,
{
    if fuel == 0 {
        (st, Err(ErrorView::Exhausted))
    } else {
        let f = (fuel - 1) as nat;
        match d {
            DatumView::Symbol(s, _) => match env_lookup(st, env, s) {
                Some(v) => (st, Ok(v)),
                None => (st, Err(ErrorView::Undefined(d, env))),
            },
            DatumView::List(l, span) => eval_list_spec(st, env, l, span, f),
            DatumView::VecLit(l, span) => {
                let (st1, r) = eval_seq_spec(st, env, l, f);
                match r {
                    Ok(items) => (st1, Ok(DatumView::Vec(items, span))),
                    Err(e) => (st1, Err(e)),
                }
            },
            DatumView::MapLit(l, span) => {
                let (st1, r) = eval_pairs_spec(st, env, l, f);
                match r {
                    Ok(items) => (st1, Ok(DatumView::Dict(dict_of(items), span))),
                    Err(e) => (st1, Err(e)),
                }
            },
            _ => (st, Ok(d)),
        }
    }
}

/// Puts `vs` in front of a successful outcome.
pub open spec fn prepend<T>(vs: Seq<T>, o: (StoreView, Result<Seq<T>, ErrorView>)) -> (
    StoreView,
    Result<Seq<T>, ErrorView>,
) {
    match o.1 {
        Ok(ws) => (o.0, Ok(vs + ws)),
        Err(e) => (o.0, Err(e)),
    }
}

/// Evaluates each datum from first to last, stopping at the first error.
pub open spec fn eval_seq_spec(st: StoreView, env: Seq<usize>, l: Seq<DatumView>, fuel: nat) -> (
    StoreView,
    Result<Seq<DatumView>, ErrorView>,
)
    decreases fuel, 1nat, l.len(),
{
    if l.len() == 0 {
        (st, Ok(Seq::empty()))
    } else {
        let (st1, r) = eval_spec(st, env, l[0], fuel);
        match r {
            Err(e) => (st1, Err(e)),
            Ok(v) => prepend(seq![v], eval_seq_spec(st1, env, l.drop_first(), fuel)),
        }
    }
}

/// Evaluates each key and then its value, from first pair to last,
/// stopping at the first error.
pub open spec fn eval_pairs_spec(
    st: StoreView,
    env: Seq<usize>,
    l: Seq<(DatumView, DatumView)>,
    fuel: nat,
) -> (StoreView, Result<Seq<(DatumView, DatumView)>, ErrorView>)
    decreases fuel, 1nat, l.len(),
{
    if l.len() == 0 {
        (st, Ok(Seq::empty()))
    } else {
        let (st1, rk) = eval_spec(st, env, l[0].0, fuel);
        match rk {
            Err(e) => (st1, Err(e)),
            Ok(k) => {
                let (st2, rv) = eval_spec(st1, env, l[0].1, fuel);
                match rv {
                    Err(e) => (st2, Err(e)),
                    Ok(v) => prepend(seq![(k, v)], eval_pairs_spec(st2, env, l.drop_first(), fuel)),
                }
            },
        }
    }
}

/// Evaluates a body: each form in turn, giving the value of the last one,
/// or nil for an empty body.
pub open spec fn eval_body_spec(st: StoreView, env: Seq<usize>, body: Seq<DatumView>, fuel: nat) -> (
    StoreView,
    Result<DatumView, ErrorView>,
)
    decreases fuel, 1nat, body.len(),
{
    if body.len() == 0 {
        (st, Ok(DatumView::Nil))
    } else {
        let (st1, r) = eval_spec(st, env, body[0], fuel);
        match r {
            Err(e) => (st1, Err(e)),
            Ok(v) => if body.len() == 1 {
                (st1, Ok(v))
            } else {
                eval_body_spec(st1, env, body.drop_first(), fuel)
            },
        }
    }
}

/// Binds each named fixed parameter to the argument in its position.
pub open spec fn bind_fixed_spec(
    st: StoreView,
    env: Seq<usize>,
    params: Seq<ParamView>,
    args: Seq<DatumView>,
) -> StoreView
    decreases params.len(),
{
    if params.len() == 0 {
        st
    } else {
        let st1 = bind_fixed_spec(st, env, params.drop_last(), args);
        match params.last().name {
            Some(n) => env_define(st1, env, n, args[params.len() - 1]),
            None => st1,
        }
    }
}

/// Binds the named scoop parameter, if any, to the list of the arguments
/// after the fixed ones.
pub open spec fn bind_scoop_spec(
    st: StoreView,
    env: Seq<usize>,
    params: ParamsView,
    args: Seq<DatumView>,
    span: Option<(SpanView, SpanView)>,
) -> StoreView {
    match params.scoop {
        Some(p) => match p.name {
            Some(n) => env_define(
                st,
                env,
                n,
                DatumView::List(args.subrange(params.fixed.len() as int, args.len() as int), span),
            ),
            None => st,
        },
        None => st,
    }
}

/// Binds the named call-span parameter, if any, to the span of the call.
pub open spec fn bind_call_span_spec(
    st: StoreView,
    env: Seq<usize>,
    params: ParamsView,
    span: Option<(SpanView, SpanView)>,
) -> StoreView {
    match params.call_span {
        Some(p) => match p.name {
            Some(n) => match span {
                Some((a, b)) => env_define(st, env, n, DatumView::SurroundSpan(a, b)),
                None => st,
            },
            None => st,
        },
        None => st,
    }
}

/// Whether `argc` arguments fit the parameters.
pub open spec fn arity_fits(params: ParamsView, argc: nat) -> bool {
    if params.scoop is Some {
        params.fixed.len() <= argc
    } else {
        params.fixed.len() == argc
    }
}

/// The error for arguments that do not fit the parameters of `callee`.
pub open spec fn arity_error(callee: DatumView, args: Seq<DatumView>, params: ParamsView) -> ErrorView {
    if args.len() < params.fixed.len() {
        ErrorView::TooFewArgs(callee, args, params)
    } else {
        ErrorView::TooManyArgs(callee, args, params)
    }
}

/// The store after a vex's arguments and calling environment are bound in
/// `env`, a new frame of its closure.
pub open spec fn vex_bindings(
    st: StoreView,
    caller: Seq<usize>,
    vex: VexView,
    env: Seq<usize>,
    args: Seq<DatumView>,
    span: Option<(SpanView, SpanView)>,
) -> StoreView {
    let st2 = bind_fixed_spec(st, env, vex.params.fixed, args);
    let st3 = bind_scoop_spec(st2, env, vex.params, args, span);
    let st4 = match vex.env.name {
        Some(n) => env_define(st3, env, n, DatumView::Env(caller)),
        None => st3,
    };
    bind_call_span_spec(st4, env, vex.params, span)
}

/// Calls a vex: the arguments (the whole calling list) are bound
/// unevaluated in a new frame of the vex's closure, with the calling
/// environment, and its body is evaluated there.
pub open spec fn call_vex_spec(
    st: StoreView,
    caller: Seq<usize>,
    vex: VexView,
    args: Seq<DatumView>,
    span: Option<(SpanView, SpanView)>,
    fuel: nat,
) -> (StoreView, Result<DatumView, ErrorView>)
    decreases fuel, 2nat, 0nat,
{
    if !arity_fits(vex.params, args.len()) {
        (st, Err(arity_error(DatumView::Vex(vex), args, vex.params)))
    } else {
        let env = vex.closure.push(st.len() as usize);
        let st1 = vex_bindings(st.push(Seq::empty()), caller, vex, env, args, span);
        eval_body_spec(st1, env, vex.body, fuel)
    }
}

/// The store after a function's arguments are bound in `env`, a new frame
/// of its closure.
pub open spec fn fun_bindings(
    st: StoreView,
    fun: FunView,
    env: Seq<usize>,
    vals: Seq<DatumView>,
    span: Option<(SpanView, SpanView)>,
) -> StoreView {
    let st2 = bind_fixed_spec(st, env, fun.params.fixed, vals);
    let st3 = bind_scoop_spec(st2, env, fun.params, vals, span);
    bind_call_span_spec(st3, env, fun.params, span)
}

/// Calls a function: the arguments are evaluated in the calling
/// environment, bound in a new frame of the function's closure, and its
/// body is evaluated there.
pub open spec fn call_fun_spec(
    st: StoreView,
    env: Seq<usize>,
    fun: FunView,
    args: Seq<DatumView>,
    span: Option<(SpanView, SpanView)>,
    fuel: nat,
) -> (StoreView, Result<DatumView, ErrorView>)
    decreases fuel, 2nat, 0nat,
{
    let (st1, r) = eval_seq_spec(st, env, args, fuel);
    match r {
        Err(e) => (st1, Err(e)),
        Ok(vals) => if !arity_fits(fun.params, vals.len()) {
            (st1, Err(arity_error(DatumView::Fun(fun), vals, fun.params)))
        } else {
            let fenv = fun.closure.push(st1.len() as usize);
            let st2 = fun_bindings(st1.push(Seq::empty()), fun, fenv, vals, span);
            eval_body_spec(st2, fenv, fun.body, fuel)
        },
    }
}

/// Parsing a parameter vector is not implemented: it always fails.
pub open spec fn parse_params_spec() -> ErrorView {
    ErrorView::Unimplemented(Prim::Fn)
}

/// `(fn [params...] body...)`: a function closing over the calling environment.
pub open spec fn prim_fun_spec(args: Seq<DatumView>) -> Result<DatumView, ErrorView> {
    if args.len() == 0 {
        Err(ErrorView::PrimTooFewArgs(Prim::Fn, args))
    } else {
        match args[0] {
            DatumView::VecLit(_, _) => Err(parse_params_spec()),
            DatumView::Vec(_, _) => Err(parse_params_spec()),
            other => Err(ErrorView::ExpectedParams(other)),
        }
    }
}

/// The error for a primitive given the wrong number of arguments.
pub open spec fn prim_arity_error(p: Prim, args: Seq<DatumView>, most: nat) -> ErrorView {
    if args.len() > most {
        ErrorView::PrimTooManyArgs(p, args)
    } else {
        ErrorView::PrimTooFewArgs(p, args)
    }
}

/// `(if cond then)` and `(if cond then else)`.
pub open spec fn prim_if_spec(st: StoreView, env: Seq<usize>, args: Seq<DatumView>, fuel: nat) -> (
    StoreView,
    Result<DatumView, ErrorView>,
)
    decreases fuel, 3nat, 0nat,
{
    if args.len() == 2 || args.len() == 3 {
        let (st1, r) = eval_spec(st, env, args[0], fuel);
        match r {
            Err(e) => (st1, Err(e)),
            Ok(c) => if is_truthy(c) {
                eval_spec(st1, env, args[1], fuel)
            } else if args.len() == 3 {
                eval_spec(st1, env, args[2], fuel)
            } else {
                (st1, Ok(DatumView::Nil))
            },
        }
    } else {
        (st, Err(prim_arity_error(Prim::If, args, 3)))
    }
}

/// `(define name value)`: binds the value in the innermost frame, giving nil.
pub open spec fn prim_define_spec(st: StoreView, env: Seq<usize>, args: Seq<DatumView>, fuel: nat) -> (
    StoreView,
    Result<DatumView, ErrorView>,
)
    decreases fuel, 3nat, 0nat,
{
    if args.len() == 2 {
        match args[0] {
            DatumView::Symbol(n, _) => {
                let (st1, r) = eval_spec(st, env, args[1], fuel);
                match r {
                    Err(e) => (st1, Err(e)),
                    Ok(v) => (env_define(st1, env, n, v), Ok(DatumView::Nil)),
                }
            },
            other => (st, Err(ErrorView::ExpectedBinding(other))),
        }
    } else {
        (st, Err(prim_arity_error(Prim::Define, args, 2)))
    }
}

/// `(eval expr)` and `(eval expr env)`: evaluates the value of `expr`, in
/// the current environment or in the value of `env`.
pub open spec fn prim_eval_spec(st: StoreView, env: Seq<usize>, args: Seq<DatumView>, fuel: nat) -> (
    StoreView,
    Result<DatumView, ErrorView>,
)
    decreases fuel, 3nat, 0nat,
{
    if args.len() == 1 {
        let (st1, r) = eval_spec(st, env, args[0], fuel);
        match r {
            Err(e) => (st1, Err(e)),
            Ok(x) => eval_spec(st1, env, x, fuel),
        }
    } else if args.len() == 2 {
        let (st1, r) = eval_spec(st, env, args[0], fuel);
        match r {
            Err(e) => (st1, Err(e)),
            Ok(x) => {
                let (st2, r2) = eval_spec(st1, env, args[1], fuel);
                match r2 {
                    Err(e) => (st2, Err(e)),
                    Ok(DatumView::Env(e)) => eval_spec(st2, e, x, fuel),
                    Ok(other) => (st2, Err(ErrorView::ExpectedEnv(other))),
                }
            },
        }
    } else {
        (st, Err(prim_arity_error(Prim::Eval, args, 2)))
    }
}

/// Calls a primitive with its unevaluated arguments.
pub open spec fn call_prim_spec(
    st: StoreView,
    env: Seq<usize>,
    p: Prim,
    args: Seq<DatumView>,
    fuel: nat,
) -> (StoreView, Result<DatumView, ErrorView>)
    decreases fuel, 4nat, 0nat,
{
    match p {
        Prim::Vex => (st, Err(ErrorView::Unimplemented(Prim::Vex))),
        Prim::Fn => (st, prim_fun_spec(args)),
        Prim::If => prim_if_spec(st, env, args, fuel),
        Prim::Define => prim_define_spec(st, env, args, fuel),
        Prim::Eval => prim_eval_spec(st, env, args, fuel),
    }
}

/// Evaluates a list: the empty list is itself, otherwise the head is
/// evaluated and called.
pub open spec fn eval_list_spec(
    st: StoreView,
    env: Seq<usize>,
    list: Seq<DatumView>,
    span: Option<(SpanView, SpanView)>,
    fuel: nat,
) -> (StoreView, Result<DatumView, ErrorView>)
    decreases fuel, 5nat, 0nat,
{
    if list.len() == 0 {
        (st, Ok(DatumView::List(list, span)))
    } else {
        let (st1, r) = eval_spec(st, env, list[0], fuel);
        match r {
            Err(e) => (st1, Err(e)),
            Ok(DatumView::Vex(v)) => call_vex_spec(st1, env, v, list, span, fuel),
            Ok(DatumView::Fun(f)) => call_fun_spec(st1, env, f, list.drop_first(), span, fuel),
            Ok(DatumView::Prim(p)) => call_prim_spec(st1, env, p, list.drop_first(), fuel),
            Ok(other) => (st1, Err(ErrorView::NotCallable(other, span))),
        }
    }
}

// ---------------------------------------------------------------------------
// The evaluator
// ---------------------------------------------------------------------------

/// Copies a slice of data into a vector.
pub fn slice_to_datums(s: &[Datum]) -> (r: Vec<Datum>)
    ensures
        datums_view(r@) == datums_view(s@),
{
    let mut out: Vec<Datum> = Vec::new();
    let n = s.len();
    for i in 0..n
        invariant
            n == s@.len(),
            out.len() == i,
            forall|j: int| 0 <= j < i ==> #[trigger] out@[j]@ == s@[j]@,
    {
        out.push(clone_datum(&s[i]));
    }
    assert(datums_view(out@) =~= datums_view(s@));
    out
}

/// Evaluates `datum` in `env`. `fuel` bounds how deeply evaluations may
/// nest: each evaluation of a datum runs the ones inside it with one unit
/// less, and one reached with none left fails with `Exhausted`.
pub fn eval(env: &Env, datum: &Datum, store: &mut Store, fuel: u64) -> (r: Result<Datum, Error>)
    ensures
        (final(store)@, result_view(r)) == eval_spec(old(store)@, env@, datum@, fuel as nat),
        old(store)@.len() <= final(store)@.len(),
        forall|e: Seq<usize>| #[trigger] env_wf(old(store)@, e) ==> env_wf(final(store)@, e),
    decreases fuel, 0nat, 0nat,
{
    proof {
        lemma_grows_eval(store@, env@, datum@, fuel as nat);
    }
    if fuel == 0 {
        return Err(Error::Exhausted);
    }
    let f = fuel - 1;
    proof {
        lemma_view_seqs(*datum);
    }
    match datum {
        Datum::Symbol(s, _) => match env.lookup(store, (**s).as_str()) {
            Some(val) => Ok(val),
            None => Err(Error::Undefined(clone_datum(datum), env.clone())),
        },
        Datum::List(l, span) => eval_list(env, l.as_slice(), span, store, f),
        Datum::VecLit(l, span) => {
            let items = eval_seq(env, l.as_slice(), store, f)?;
            let r = Datum::Vec(items, clone_opt_spans(span));
            proof {
                lemma_view_seqs(r);
            }
            Ok(r)
        },
        Datum::MapLit(l, span) => {
            let pairs = eval_pairs(env, l.as_slice(), store, f)?;
            let r = Datum::Dict(dict_from_pairs(&pairs), clone_opt_spans(span));
            proof {
                lemma_view_seqs(r);
            }
            Ok(r)
        },
        _ => Ok(clone_datum(datum)),
    }
}

/// Evaluates each datum in turn, stopping at the first error.
fn eval_seq(env: &Env, items: &[Datum], store: &mut Store, fuel: u64) -> (r: Result<Vec<Datum>, Error>)
    ensures
        (final(store)@, results_view(r)) == eval_seq_spec(
            old(store)@,
            env@,
            datums_view(items@),
            fuel as nat,
        ),
    decreases fuel, 1nat, 0nat,
{
    let mut out: Vec<Datum> = Vec::new();
    let n = items.len();
    let ghost l = datums_view(items@);
    let ghost start = store@;
    assert(l.skip(0) =~= l);
    assert(datums_view(out@) =~= Seq::<DatumView>::empty());
    for i in 0..n
        invariant
            n == items@.len(),
            l == datums_view(items@),
            start == old(store)@,
            eval_seq_spec(start, env@, l, fuel as nat) == prepend(
                datums_view(out@),
                eval_seq_spec(store@, env@, l.skip(i as int), fuel as nat),
            ),
    {
        let ghost rest = l.skip(i as int);
        assert(rest.drop_first() =~= l.skip(i + 1));
        assert(rest[0] == items@[i as int]@);
        let ghost before = datums_view(out@);
        let ghost st_before = store@;
        let v = match eval(env, &items[i], store, fuel) {
            Ok(v) => v,
            Err(e) => {
                assert(eval_seq_spec(st_before, env@, rest, fuel as nat) == (
                    store@,
                    Err::<Seq<DatumView>, ErrorView>(error_view(e)),
                ));
                return Err(e);
            },
        };
        out.push(v);
        proof {
            assert(datums_view(out@) =~= before.push(v@));
            let tail = eval_seq_spec(store@, env@, l.skip(i + 1), fuel as nat);
            match tail.1 {
                Ok(ws) => {
                    assert(before + (seq![v@] + ws) =~= before.push(v@) + ws);
                },
                Err(_) => {},
            }
        }
    }
    assert(l.skip(n as int) =~= Seq::<DatumView>::empty());
    assert(datums_view(out@) + Seq::<DatumView>::empty() =~= datums_view(out@));
    Ok(out)
}

/// Evaluates each key and value in turn, stopping at the first error.
fn eval_pairs(env: &Env, items: &[(Datum, Datum)], store: &mut Store, fuel: u64) -> (r: Result<
    Vec<(Datum, Datum)>,
    Error,
>)
    ensures
        (final(store)@, pair_results_view(r)) == eval_pairs_spec(
            old(store)@,
            env@,
            pairs_view(items@),
            fuel as nat,
        ),
    decreases fuel, 1nat, 0nat,
{
    let mut out: Vec<(Datum, Datum)> = Vec::new();
    let n = items.len();
    let ghost l = pairs_view(items@);
    let ghost start = store@;
    assert(l.skip(0) =~= l);
    assert(pairs_view(out@) =~= Seq::<(DatumView, DatumView)>::empty());
    for i in 0..n
        invariant
            n == items@.len(),
            l == pairs_view(items@),
            start == old(store)@,
            eval_pairs_spec(start, env@, l, fuel as nat) == prepend(
                pairs_view(out@),
                eval_pairs_spec(store@, env@, l.skip(i as int), fuel as nat),
            ),
    {
        let ghost rest = l.skip(i as int);
        assert(rest.drop_first() =~= l.skip(i + 1));
        assert(rest[0] == (items@[i as int].0@, items@[i as int].1@));
        let ghost before = pairs_view(out@);
        let ghost st_before = store@;
        let k = match eval(env, &items[i].0, store, fuel) {
            Ok(k) => k,
            Err(e) => {
                assert(eval_pairs_spec(st_before, env@, rest, fuel as nat) == (
                    store@,
                    Err::<Seq<(DatumView, DatumView)>, ErrorView>(error_view(e)),
                ));
                return Err(e);
            },
        };
        let ghost st_mid = store@;
        let v = match eval(env, &items[i].1, store, fuel) {
            Ok(v) => v,
            Err(e) => {
                assert(eval_pairs_spec(st_before, env@, rest, fuel as nat) == (
                    store@,
                    Err::<Seq<(DatumView, DatumView)>, ErrorView>(error_view(e)),
                ));
                return Err(e);
            },
        };
        out.push((k, v));
        proof {
            assert(pairs_view(out@) =~= before.push((k@, v@)));
            let tail = eval_pairs_spec(store@, env@, l.skip(i + 1), fuel as nat);
            match tail.1 {
                Ok(ws) => {
                    assert(before + (seq![(k@, v@)] + ws) =~= before.push((k@, v@)) + ws);
                },
                Err(_) => {},
            }
        }
    }
    assert(l.skip(n as int) =~= Seq::<(DatumView, DatumView)>::empty());
    assert(pairs_view(out@) + Seq::<(DatumView, DatumView)>::empty() =~= pairs_view(out@));
    Ok(out)
}

/// Evaluates a body, giving the value of its last form, or nil.
fn eval_body(env: &Env, body: &[Datum], store: &mut Store, fuel: u64) -> (r: Result<Datum, Error>)
    ensures
        (final(store)@, result_view(r)) == eval_body_spec(
            old(store)@,
            env@,
            datums_view(body@),
            fuel as nat,
        ),
    decreases fuel, 1nat, 0nat,
{
    let mut last = Datum::Nil;
    let n = body.len();
    let ghost l = datums_view(body@);
    let ghost start = store@;
    assert(l.skip(0) =~= l);
    for i in 0..n
        invariant
            n == body@.len(),
            l == datums_view(body@),
            start == old(store)@,
            eval_body_spec(start, env@, l, fuel as nat) == if i < n {
                eval_body_spec(store@, env@, l.skip(i as int), fuel as nat)
            } else {
                (store@, Ok::<DatumView, ErrorView>(last@))
            },
    {
        let ghost rest = l.skip(i as int);
        assert(rest.drop_first() =~= l.skip(i + 1));
        assert(rest[0] == body@[i as int]@);
        let ghost st_before = store@;
        last = match eval(env, &body[i], store, fuel) {
            Ok(v) => v,
            Err(e) => {
                assert(eval_body_spec(st_before, env@, rest, fuel as nat) == (
                    store@,
                    Err::<DatumView, ErrorView>(error_view(e)),
                ));
                return Err(e);
            },
        };
    }
    Ok(last)
}

/// Binds each named fixed parameter to the argument in its position.
fn bind_fixed(env: &Env, params: &Params, args: &[Datum], store: &mut Store)
    requires
        params.fixed.len() <= args.len(),
    ensures
        final(store)@ == bind_fixed_spec(old(store)@, env@, params@.fixed, datums_view(args@)),
{
    let ghost ps = params@.fixed;
    let n = params.fixed.len();
    assert(ps.take(0) =~= Seq::<ParamView>::empty());
    for i in 0..n
        invariant
            n == params.fixed.len(),
            n <= args@.len(),
            ps == params@.fixed,
            store@ == bind_fixed_spec(old(store)@, env@, ps.take(i as int), datums_view(args@)),
    {
        assert(ps.take(i + 1).drop_last() =~= ps.take(i as int));
        assert(ps.take(i + 1).last() == params.fixed@[i as int]@);
        match &params.fixed[i].name {
            Some(name) => {
                env.define(store, name.clone(), clone_datum(&args[i]));
            },
            None => {},
        }
    }
    assert(ps.take(n as int) =~= ps);
}

/// Binds the named scoop parameter, if any, to the arguments after the fixed ones.
fn bind_scoop(env: &Env, params: &Params, args: &[Datum], span: &Option<(Span, Span)>, store: &mut Store)
    requires
        params.fixed.len() <= args.len(),
    ensures
        final(store)@ == bind_scoop_spec(
            old(store)@,
            env@,
            params@,
            datums_view(args@),
            opt_spans_view(*span),
        ),
{
    match &params.scoop {
        Some(scoop) => match &scoop.name {
            Some(name) => {
                let (_, rest) = args.split_at(params.fixed.len());
                let rest = slice_to_datums(rest);
                let l = Datum::List(rest, clone_opt_spans(span));
                proof {
                    lemma_view_seqs(l);
                    assert(datums_view(args@).subrange(params.fixed.len() as int, args@.len() as int)
                        =~= datums_view(args@.subrange(params.fixed.len() as int, args@.len() as int)));
                }
                env.define(store, name.clone(), l);
            },
            None => {},
        },
        None => {},
    }
}

/// Binds the named call-span parameter, if any, to the span of the call.
fn bind_call_span(env: &Env, params: &Params, span: &Option<(Span, Span)>, store: &mut Store)
    ensures
        final(store)@ == bind_call_span_spec(old(store)@, env@, params@, opt_spans_view(*span)),
{
    match &params.call_span {
        Some(p) => match &p.name {
            Some(name) => match span {
                Some((a, b)) => {
                    env.define(store, name.clone(), Datum::SurroundSpan(a.clone(), b.clone()));
                },
                None => {},
            },
            None => {},
        },
        None => {},
    }
}

fn eval_list(
    env: &Env,
    list: &[Datum],
    span: &Option<(Span, Span)>,
    store: &mut Store,
    fuel: u64,
) -> (r: Result<Datum, Error>)
    ensures
        (final(store)@, result_view(r)) == eval_list_spec(
            old(store)@,
            env@,
            datums_view(list@),
            opt_spans_view(*span),
            fuel as nat,
        ),
    decreases fuel, 5nat, 0nat,
{
    if list.len() == 0 {
        let empty: Vec<Datum> = Vec::new();
        let r = Datum::List(empty, clone_opt_spans(span));
        proof {
            lemma_view_seqs(r);
            assert(datums_view(empty@) =~= datums_view(list@));
        }
        return Ok(r);
    }
    let head = eval(env, &list[0], store, fuel)?;
    let (_, rest) = list.split_at(1);
    assert(datums_view(rest@) =~= datums_view(list@).drop_first());
    proof {
        lemma_view_bodies(head);
    }
    match head {
        Datum::Vex(v) => eval_call_vex(env, &v, list, span, store, fuel),
        Datum::Fun(f) => eval_call_fun(env, &f, rest, span, store, fuel),
        Datum::Prim(p) => eval_call_prim(env, p, rest, span, store, fuel),
        other => Err(Error::NotCallable(other, clone_opt_spans(span))),
    }
}

fn eval_call_fun(
    env: &Env,
    fun: &Rc<Fun>,
    args: &[Datum],
    span: &Option<(Span, Span)>,
    store: &mut Store,
    fuel: u64,
) -> (r: Result<Datum, Error>)
    ensures
        (final(store)@, result_view(r)) == call_fun_spec(
            old(store)@,
            env@,
            fun_view(**fun),
            datums_view(args@),
            opt_spans_view(*span),
            fuel as nat,
        ),
    decreases fuel, 2nat, 0nat,
{
    // evaluate the arguments
    let args = eval_seq(env, args, store, fuel)?;
    let argc = args.len();
    let paramc = fun.params.fixed.len();
    let fits = match &fun.params.scoop {
        Some(_) => paramc <= argc,
        None => paramc == argc,
    };
    if !fits {
        let callee = Datum::Fun(Rc::clone(fun));
        proof {
            lemma_view_bodies(callee);
        }
        if argc < paramc {
            return Err(Error::TooFewArgs(callee, args, fun.params.clone()));
        } else {
            return Err(Error::TooManyArgs(callee, args, fun.params.clone()));
        }
    }
    // create a new frame based on the function's closure and bind the arguments.
    let fenv = fun.closure.frame(store);
    bind_fixed(&fenv, &fun.params, args.as_slice(), store);
    bind_scoop(&fenv, &fun.params, args.as_slice(), span, store);
    bind_call_span(&fenv, &fun.params, span, store);
    // evaluate the body
    eval_body(&fenv, fun.body.as_slice(), store, fuel)
}

fn eval_call_vex(
    caller: &Env,
    vex: &Rc<Vex>,
    args: &[Datum],
    span: &Option<(Span, Span)>,
    store: &mut Store,
    fuel: u64,
) -> (r: Result<Datum, Error>)
    ensures
        (final(store)@, result_view(r)) == call_vex_spec(
            old(store)@,
            caller@,
            vex_view(**vex),
            datums_view(args@),
            opt_spans_view(*span),
            fuel as nat,
        ),
    decreases fuel, 2nat, 0nat,
{
    let argc = args.len();
    let paramc = vex.params.fixed.len();
    let fits = match &vex.params.scoop {
        Some(_) => paramc <= argc,
        None => paramc == argc,
    };
    if !fits {
        let callee = Datum::Vex(Rc::clone(vex));
        proof {
            lemma_view_bodies(callee);
        }
        let given = slice_to_datums(args);
        if argc < paramc {
            return Err(Error::TooFewArgs(callee, given, vex.params.clone()));
        } else {
            return Err(Error::TooManyArgs(callee, given, vex.params.clone()));
        }
    }
    // create a new frame based on the vex's closure and bind the arguments.
    let env = vex.closure.frame(store);
    bind_fixed(&env, &vex.params, args, store);
    bind_scoop(&env, &vex.params, args, span, store);
    // bind the calling environment
    match &vex.env.name {
        Some(name) => {
            env.define(store, name.clone(), Datum::Env(caller.clone()));
        },
        None => {},
    }
    bind_call_span(&env, &vex.params, span, store);
    // evaluate the body
    eval_body(&env, vex.body.as_slice(), store, fuel)
}

/// Copies the string that a symbol shares.
fn clone_string_rc(s: &Rc<String>) -> (r: String)
    ensures
        r@ == (**s)@,
{
    (**s).clone()
}

fn eval_call_prim(
    env: &Env,
    prim: Prim,
    args: &[Datum],
    span: &Option<(Span, Span)>,
    store: &mut Store,
    fuel: u64,
) -> (r: Result<
    Datum,
    Error,
>)
    ensures
        (final(store)@, result_view(r)) == call_prim_spec(
            old(store)@,
            env@,
            prim,
            datums_view(args@),
            fuel as nat,
        ),
    decreases fuel, 4nat, 0nat,
{
    match prim {
        Prim::Vex => eval_prim_vex(env, args, span),
        Prim::Fn => eval_prim_fun(env, args, span),
        Prim::If => eval_prim_if(env, args, store, fuel),
        Prim::Define => eval_prim_define(env, args, store, fuel),
        Prim::Eval => eval_prim_eval(env, args, store, fuel),
    }
}

fn prim_arity(prim: Prim, args: &[Datum], most: usize) -> (r: Error)
    ensures
        error_view(r) == prim_arity_error(prim, datums_view(args@), most as nat),
{
    if args.len() > most {
        Error::PrimTooManyArgs(prim, slice_to_datums(args))
    } else {
        Error::PrimTooFewArgs(prim, slice_to_datums(args))
    }
}

fn eval_prim_if(env: &Env, args: &[Datum], store: &mut Store, fuel: u64) -> (r: Result<Datum, Error>)
    ensures
        (final(store)@, result_view(r)) == prim_if_spec(
            old(store)@,
            env@,
            datums_view(args@),
            fuel as nat,
        ),
    decreases fuel, 3nat, 0nat,
{
    if args.len() == 2 || args.len() == 3 {
        let cond = eval(env, &args[0], store, fuel)?;
        if cond.is_truthy() {
            eval(env, &args[1], store, fuel)
        } else if args.len() == 3 {
            eval(env, &args[2], store, fuel)
        } else {
            Ok(Datum::Nil)
        }
    } else {
        Err(prim_arity(Prim::If, args, 3))
    }
}

fn eval_prim_define(env: &Env, args: &[Datum], store: &mut Store, fuel: u64) -> (r: Result<
    Datum,
    Error,
>)
    ensures
        (final(store)@, result_view(r)) == prim_define_spec(
            old(store)@,
            env@,
            datums_view(args@),
            fuel as nat,
        ),
    decreases fuel, 3nat, 0nat,
{
    if args.len() == 2 {
        match &args[0] {
            Datum::Symbol(name, _) => {
                let value = eval(env, &args[1], store, fuel)?;
                env.define(store, clone_string_rc(name), value);
                Ok(Datum::Nil)
            },
            other => Err(Error::ExpectedBinding(clone_datum(other))),
        }
    } else {
        Err(prim_arity(Prim::Define, args, 2))
    }
}

fn eval_prim_eval(env: &Env, args: &[Datum], store: &mut Store, fuel: u64) -> (r: Result<
    Datum,
    Error,
>)
    ensures
        (final(store)@, result_view(r)) == prim_eval_spec(
            old(store)@,
            env@,
            datums_view(args@),
            fuel as nat,
        ),
    decreases fuel, 3nat, 0nat,
{
    // this looks weird, but think about it: you will be
    // calling this with symbols most likely, so they will
    // first need to be resolved in the current environment.
    if args.len() == 1 {
        let expr = eval(env, &args[0], store, fuel)?;
        eval(env, &expr, store, fuel)
    } else if args.len() == 2 {
        let expr = eval(env, &args[0], store, fuel)?;
        let env2 = eval(env, &args[1], store, fuel)?;
        match &env2 {
            Datum::Env(e) => eval(e, &expr, store, fuel),
            _ => Err(Error::ExpectedEnv(env2)),
        }
    } else {
        Err(prim_arity(Prim::Eval, args, 2))
    }
}

fn eval_prim_fun(env: &Env, args: &[Datum], call_span: &Option<(Span, Span)>) -> (r: Result<
    Datum,
    Error,
>)
    ensures
        result_view(r) == prim_fun_spec(datums_view(args@)),
{
    if args.len() == 0 {
        return Err(Error::PrimTooFewArgs(Prim::Fn, slice_to_datums(args)));
    }
    let (_, body) = args.split_at(1);
    let params = match &args[0] {
        Datum::VecLit(v, span) => parse_params_slice(v.as_slice(), span)?,
        Datum::Vec(v, span) => parse_params_vector(v, span)?,
        other => {
            return Err(Error::ExpectedParams(clone_datum(other)));
        },
    };
    Ok(
        Datum::Fun(
            Rc::new(
                Fun {
                    params,
                    closure: env.clone(),
                    body: slice_to_datums(body),
                    span: clone_opt_spans(call_span),
                },
            ),
        ),
    )
}

fn eval_prim_vex(env: &Env, args: &[Datum], span: &Option<(Span, Span)>) -> (r: Result<
    Datum,
    Error,
>)
    ensures
        result_view(r) == Err::<DatumView, ErrorView>(ErrorView::Unimplemented(Prim::Vex)),
{
    Err(Error::Unimplemented(Prim::Vex))
}

/// Reads the parameters of a function from a vector literal. Not implemented yet.
fn parse_params_slice(items: &[Datum], span: &Option<(Span, Span)>) -> (r: Result<Params, Error>)
    ensures
        params_result_view(r) == Err::<ParamsView, ErrorView>(parse_params_spec()),
{
    Err(Error::Unimplemented(Prim::Fn))
}

/// Reads the parameters of a function from a vector. Not implemented yet.
fn parse_params_vector(items: &Vec<Datum>, span: &Option<(Span, Span)>) -> (r: Result<
    Params,
    Error,
>)
    ensures
        params_result_view(r) == Err::<ParamsView, ErrorView>(parse_params_spec()),
{
    Err(Error::Unimplemented(Prim::Fn))
}

// ---------------------------------------------------------------------------
// Laws of evaluation
// ---------------------------------------------------------------------------

/// Whether a datum evaluates to itself: everything but symbols, lists and
/// vector and map literals.
pub open spec fn self_evaluating(d: DatumView) -> bool {
    !(d is Symbol || d is List || d is VecLit || d is MapLit)
}

/// Data other than symbols, lists and literals evaluate to themselves and
/// change nothing.
pub proof fn law_self_evaluating(st: StoreView, env: Seq<usize>, d: DatumView, fuel: nat)
    requires
        self_evaluating(d),
        fuel > 0,
    ensures
        eval_spec(st, env, d, fuel) == (st, Ok::<DatumView, ErrorView>(d)),
{
}

/// After `(define x d)` evaluates, to nil, the symbol `x` evaluates to the
/// value of `d`.
pub proof fn law_define_then_eval(
    st: StoreView,
    env: Seq<usize>,
    x: Seq<char>,
    span: Option<SpanView>,
    span2: Option<SpanView>,
    d: DatumView,
    list_span: Option<(SpanView, SpanView)>,
    fuel: nat,
)
    requires
        eval_spec(st, env, d, fuel + 1).1 is Ok,
        env_wf(eval_spec(st, env, d, fuel + 1).0, env),
    ensures
        ({
            let (st1, r) = eval_spec(st, env, d, fuel + 1);
            let v = r->Ok_0;
            let st2 = env_define(st1, env, x, v);
            let call = DatumView::List(
                seq![DatumView::Prim(Prim::Define), DatumView::Symbol(x, span), d],
                list_span,
            );
            &&& eval_spec(st, env, call, fuel + 2) == (st2, Ok::<DatumView, ErrorView>(DatumView::Nil))
            &&& eval_spec(st2, env, DatumView::Symbol(x, span2), 1) == (st2, Ok::<DatumView, ErrorView>(v))
        }),
{
    let (st1, r) = eval_spec(st, env, d, fuel + 1);
    let v = r->Ok_0;
    let l = seq![DatumView::Prim(Prim::Define), DatumView::Symbol(x, span), d];
    assert(l.drop_first() =~= seq![DatumView::Symbol(x, span), d]);
    assert(eval_spec(st, env, l[0], fuel + 1) == (st, Ok::<DatumView, ErrorView>(l[0])));
    let args = l.drop_first();
    assert(prim_define_spec(st, env, args, fuel + 1) == (
        env_define(st1, env, x, v),
        Ok::<DatumView, ErrorView>(DatumView::Nil),
    ));
    assert(call_prim_spec(st, env, Prim::Define, args, fuel + 1) == prim_define_spec(
        st,
        env,
        args,
        fuel + 1,
    ));
    assert(eval_list_spec(st, env, l, list_span, fuel + 1) == call_prim_spec(
        st,
        env,
        Prim::Define,
        args,
        fuel + 1,
    ));
    law_define_then_lookup(st1, env, x, v);
}

/// A symbol evaluates to its binding in the environment, or fails as
/// undefined, and the store is left as it was.
pub proof fn law_symbol_evaluates_to_binding(
    st: StoreView,
    env: Seq<usize>,
    s: Seq<char>,
    span: Option<SpanView>,
    fuel: nat,
)
    requires
        fuel > 0,
    ensures
        eval_spec(st, env, DatumView::Symbol(s, span), fuel) == (st, match env_lookup(st, env, s) {
            Some(v) => Ok::<DatumView, ErrorView>(v),
            None => Err(ErrorView::Undefined(DatumView::Symbol(s, span), env)),
        }),
{
}

/// A call evaluates its head first. A vex is given the whole list,
/// unevaluated; a function or a primitive the rest of it; anything else
/// cannot be called.
pub proof fn law_call_dispatches_on_head(
    st: StoreView,
    env: Seq<usize>,
    list: Seq<DatumView>,
    span: Option<(SpanView, SpanView)>,
    fuel: nat,
)
    requires
        list.len() > 0,
    ensures
        ({
            let (st1, r) = eval_spec(st, env, list[0], fuel);
            eval_spec(st, env, DatumView::List(list, span), fuel + 1) == match r {
                Err(e) => (st1, Err(e)),
                Ok(DatumView::Vex(v)) => call_vex_spec(st1, env, v, list, span, fuel),
                Ok(DatumView::Fun(f)) => call_fun_spec(st1, env, f, list.drop_first(), span, fuel),
                Ok(DatumView::Prim(p)) => call_prim_spec(st1, env, p, list.drop_first(), fuel),
                Ok(other) => (st1, Err(ErrorView::NotCallable(other, span))),
            }
        }),
{
}

/// `(if c t)` and `(if c t e)` evaluate the condition first, then only the
/// branch it picks; with no else branch a false condition gives nil.
pub proof fn law_if_evaluates_the_chosen_branch(
    st: StoreView,
    env: Seq<usize>,
    c: DatumView,
    t: DatumView,
    e: Option<DatumView>,
    span: Option<(SpanView, SpanView)>,
    fuel: nat,
)
    ensures
        ({
            let list = match e {
                Some(e) => seq![DatumView::Prim(Prim::If), c, t, e],
                None => seq![DatumView::Prim(Prim::If), c, t],
            };
            let (st1, r) = eval_spec(st, env, c, fuel + 1);
            eval_spec(st, env, DatumView::List(list, span), fuel + 2) == match r {
                Err(err) => (st1, Err(err)),
                Ok(cv) => if is_truthy(cv) {
                    eval_spec(st1, env, t, fuel + 1)
                } else {
                    match e {
                        Some(e) => eval_spec(st1, env, e, fuel + 1),
                        None => (st1, Ok(DatumView::Nil)),
                    }
                },
            }
        }),
{
    let list = match e {
        Some(e) => seq![DatumView::Prim(Prim::If), c, t, e],
        None => seq![DatumView::Prim(Prim::If), c, t],
    };
    let args = list.drop_first();
    match e {
        Some(e) => assert(args =~= seq![c, t, e]),
        None => assert(args =~= seq![c, t]),
    }
    assert(eval_spec(st, env, list[0], fuel + 1) == (st, Ok::<DatumView, ErrorView>(list[0])));
    assert(call_prim_spec(st, env, Prim::If, args, fuel + 1) == prim_if_spec(st, env, args, fuel + 1));
}

/// `(eval x e)` evaluates `x`, then `e`, and evaluates the value of `x` in
/// the environment that `e` gives, not in the calling one.
pub proof fn law_eval_uses_the_given_environment(
    st: StoreView,
    env: Seq<usize>,
    x: DatumView,
    e: DatumView,
    span: Option<(SpanView, SpanView)>,
    fuel: nat,
)
    ensures
        ({
            let list = seq![DatumView::Prim(Prim::Eval), x, e];
            let (st1, r1) = eval_spec(st, env, x, fuel + 1);
            let (st2, r2) = eval_spec(st1, env, e, fuel + 1);
            (r1 is Ok && r2 matches Ok(DatumView::Env(target))) ==> eval_spec(
                st,
                env,
                DatumView::List(list, span),
                fuel + 2,
            ) == eval_spec(st2, r2->Ok_0->Env_0, r1->Ok_0, fuel + 1)
        }),
{
    let list = seq![DatumView::Prim(Prim::Eval), x, e];
    let args = list.drop_first();
    assert(args =~= seq![x, e]);
    assert(eval_spec(st, env, list[0], fuel + 1) == (st, Ok::<DatumView, ErrorView>(list[0])));
    assert(call_prim_spec(st, env, Prim::Eval, args, fuel + 1) == prim_eval_spec(
        st,
        env,
        args,
        fuel + 1,
    ));
}

/// Whether two stores have the same frames but for frame `k`.
pub open spec fn same_but(a: StoreView, b: StoreView, k: int) -> bool {
    &&& a.len() == b.len()
    &&& forall|i: int| 0 <= i < a.len() && i != k ==> #[trigger] a[i] == b[i]
}

proof fn lemma_bind_fixed_same_but(
    st: StoreView,
    env: Seq<usize>,
    params: Seq<ParamView>,
    args: Seq<DatumView>,
    k: int,
)
    requires
        env.len() > 0,
        env.last() == k,
    ensures
        same_but(bind_fixed_spec(st, env, params, args), st, k),
    decreases params.len(),
{
    if params.len() > 0 {
        lemma_bind_fixed_same_but(st, env, params.drop_last(), args, k);
    }
}

/// Calling a vex binds its parameters, its calling environment and its call
/// span only in the new frame: with an empty body it gives nil, and every
/// lookup in its closure and in the calling environment is as before.
pub proof fn law_vex_binds_only_its_frame(
    st: StoreView,
    caller: Seq<usize>,
    vex: VexView,
    args: Seq<DatumView>,
    span: Option<(SpanView, SpanView)>,
    fuel: nat,
    name: Seq<char>,
)
    requires
        st.len() < usize::MAX,
        arity_fits(vex.params, args.len()),
        vex.body.len() == 0,
        forall|i: int| 0 <= i < vex.closure.len() ==> #[trigger] vex.closure[i] < st.len(),
        forall|i: int| 0 <= i < caller.len() ==> #[trigger] caller[i] < st.len(),
    ensures
        ({
            let (st1, r) = call_vex_spec(st, caller, vex, args, span, fuel);
            &&& r == Ok::<DatumView, ErrorView>(DatumView::Nil)
            &&& env_lookup(st1, vex.closure, name) == env_lookup(st, vex.closure, name)
            &&& env_lookup(st1, caller, name) == env_lookup(st, caller, name)
        }),
{
    let k = st.len() as int;
    let env = vex.closure.push(st.len() as usize);
    let st0 = st.push(Seq::empty());
    let st2 = bind_fixed_spec(st0, env, vex.params.fixed, args);
    lemma_bind_fixed_same_but(st0, env, vex.params.fixed, args, k);
    let st3 = bind_scoop_spec(st2, env, vex.params, args, span);
    let st4 = match vex.env.name {
        Some(n) => env_define(st3, env, n, DatumView::Env(caller)),
        None => st3,
    };
    let st5 = bind_call_span_spec(st4, env, vex.params, span);
    assert(same_but(st5, st0, k));
    assert(st5 == vex_bindings(st0, caller, vex, env, args, span));
    assert forall|i: int| 0 <= i < vex.closure.len() implies frame_lookup(
        frame_at(st5, #[trigger] vex.closure[i]),
        name,
    ) == frame_lookup(frame_at(st, vex.closure[i]), name) by {
        assert(st5[vex.closure[i] as int] == st0[vex.closure[i] as int]);
    }
    lemma_lookup_frames_same(st5, st, vex.closure, name);
    assert forall|i: int| 0 <= i < caller.len() implies frame_lookup(
        frame_at(st5, #[trigger] caller[i]),
        name,
    ) == frame_lookup(frame_at(st, caller[i]), name) by {
        assert(st5[caller[i] as int] == st0[caller[i] as int]);
    }
    lemma_lookup_frames_same(st5, st, caller, name);
}

/// Fixed parameters are bound in order: where no other fixed parameter
/// shares its name, the `i`-th one is bound to the `i`-th argument.
pub proof fn law_fixed_params_bind_in_order(
    st: StoreView,
    env: Seq<usize>,
    params: Seq<ParamView>,
    args: Seq<DatumView>,
    i: int,
    name: Seq<char>,
)
    requires
        env.len() > 0,
        env.last() < st.len(),
        params.len() <= args.len(),
        0 <= i < params.len(),
        params[i].name == Some(name),
        forall|j: int| 0 <= j < params.len() && j != i ==> #[trigger] params[j].name != Some(name),
    ensures
        env_lookup(bind_fixed_spec(st, env, params, args), env, name) == Some(args[i]),
    decreases params.len(),
{
    let rest = params.drop_last();
    let st1 = bind_fixed_spec(st, env, rest, args);
    lemma_bind_fixed_len(st, env, rest, args);
    if i == params.len() - 1 {
        law_define_then_lookup(st1, env, name, args[i]);
    } else {
        assert forall|j: int| 0 <= j < rest.len() && j != i implies #[trigger] rest[j].name != Some(
            name,
        ) by {
            assert(rest[j] == params[j]);
        }
        law_fixed_params_bind_in_order(st, env, rest, args, i, name);
        match params.last().name {
            Some(n) => {
                assert(params[params.len() - 1].name != Some(name));
                law_define_keeps_others(st1, env, n, args[params.len() - 1], env, name);
            },
            None => {},
        }
    }
}

/// Calling a function binds its `i`-th fixed parameter to its `i`-th
/// argument in the new frame, where no other parameter shares that name.
pub proof fn law_fun_binds_arguments_in_order(
    st: StoreView,
    fun: FunView,
    vals: Seq<DatumView>,
    span: Option<(SpanView, SpanView)>,
    i: int,
    name: Seq<char>,
)
    requires
        st.len() < usize::MAX,
        arity_fits(fun.params, vals.len()),
        0 <= i < fun.params.fixed.len(),
        fun.params.fixed[i].name == Some(name),
        forall|j: int|
            0 <= j < fun.params.fixed.len() && j != i ==> #[trigger] fun.params.fixed[j].name
                != Some(name),
        fun.params.scoop matches Some(p) ==> p.name != Some(name),
        fun.params.call_span matches Some(p) ==> p.name != Some(name),
    ensures
        ({
            let env = fun.closure.push(st.len() as usize);
            env_lookup(fun_bindings(st.push(Seq::empty()), fun, env, vals, span), env, name)
                == Some(vals[i])
        }),
{
    let env = fun.closure.push(st.len() as usize);
    let st0 = st.push(Seq::empty());
    let st2 = bind_fixed_spec(st0, env, fun.params.fixed, vals);
    law_fixed_params_bind_in_order(st0, env, fun.params.fixed, vals, i, name);
    let st3 = bind_scoop_spec(st2, env, fun.params, vals, span);
    match fun.params.scoop {
        Some(p) => match p.name {
            Some(n) => law_define_keeps_others(
                st2,
                env,
                n,
                DatumView::List(vals.subrange(fun.params.fixed.len() as int, vals.len() as int), span),
                env,
                name,
            ),
            None => {},
        },
        None => {},
    }
    match fun.params.call_span {
        Some(p) => match p.name {
            Some(n) => match span {
                Some((a, b)) => law_define_keeps_others(st3, env, n, DatumView::SurroundSpan(a, b), env, name),
                None => {},
            },
            None => {},
        },
        None => {},
    }
}

/// Calling a vex binds its `i`-th fixed parameter to the `i`-th datum of
/// the calling list in the new frame, where no other parameter shares that
/// name.
pub proof fn law_vex_binds_arguments_in_order(
    st: StoreView,
    caller: Seq<usize>,
    vex: VexView,
    args: Seq<DatumView>,
    span: Option<(SpanView, SpanView)>,
    i: int,
    name: Seq<char>,
)
    requires
        st.len() < usize::MAX,
        arity_fits(vex.params, args.len()),
        0 <= i < vex.params.fixed.len(),
        vex.params.fixed[i].name == Some(name),
        forall|j: int|
            0 <= j < vex.params.fixed.len() && j != i ==> #[trigger] vex.params.fixed[j].name
                != Some(name),
        vex.params.scoop matches Some(p) ==> p.name != Some(name),
        vex.params.call_span matches Some(p) ==> p.name != Some(name),
        vex.env.name != Some(name),
    ensures
        ({
            let env = vex.closure.push(st.len() as usize);
            env_lookup(vex_bindings(st.push(Seq::empty()), caller, vex, env, args, span), env, name)
                == Some(args[i])
        }),
{
    let env = vex.closure.push(st.len() as usize);
    let st0 = st.push(Seq::empty());
    let st2 = bind_fixed_spec(st0, env, vex.params.fixed, args);
    law_fixed_params_bind_in_order(st0, env, vex.params.fixed, args, i, name);
    let st3 = bind_scoop_spec(st2, env, vex.params, args, span);
    match vex.params.scoop {
        Some(p) => match p.name {
            Some(n) => law_define_keeps_others(
                st2,
                env,
                n,
                DatumView::List(args.subrange(vex.params.fixed.len() as int, args.len() as int), span),
                env,
                name,
            ),
            None => {},
        },
        None => {},
    }
    let st4 = match vex.env.name {
        Some(n) => env_define(st3, env, n, DatumView::Env(caller)),
        None => st3,
    };
    match vex.env.name {
        Some(n) => law_define_keeps_others(st3, env, n, DatumView::Env(caller), env, name),
        None => {},
    }
    match vex.params.call_span {
        Some(p) => match p.name {
            Some(n) => match span {
                Some((a, b)) => law_define_keeps_others(st4, env, n, DatumView::SurroundSpan(a, b), env, name),
                None => {},
            },
            None => {},
        },
        None => {},
    }
}

/// Binding parameters adds no frames.
proof fn lemma_bind_fixed_len(st: StoreView, env: Seq<usize>, params: Seq<ParamView>, args: Seq<DatumView>)
    ensures
        bind_fixed_spec(st, env, params, args).len() == st.len(),
    decreases params.len(),
{
    if params.len() > 0 {
        lemma_bind_fixed_len(st, env, params.drop_last(), args);
    }
}

/// A vex's body runs where its environment parameter names the environment
/// it was called from.
pub proof fn law_vex_sees_caller(
    st: StoreView,
    caller: Seq<usize>,
    vex: VexView,
    args: Seq<DatumView>,
    span: Option<(SpanView, SpanView)>,
    name: Seq<char>,
)
    requires
        st.len() < usize::MAX,
        vex.env.name == Some(name),
        vex.params.call_span is None,
    ensures
        ({
            let env = vex.closure.push(st.len() as usize);
            let st1 = vex_bindings(st.push(Seq::empty()), caller, vex, env, args, span);
            env_lookup(st1, env, name) == Some(DatumView::Env(caller))
        }),
{
    let env = vex.closure.push(st.len() as usize);
    let st0 = st.push(Seq::empty());
    let st2 = bind_fixed_spec(st0, env, vex.params.fixed, args);
    lemma_bind_fixed_len(st0, env, vex.params.fixed, args);
    let st3 = bind_scoop_spec(st2, env, vex.params, args, span);
    assert(st3.len() == st0.len());
    law_define_then_lookup(st3, env, name, DatumView::Env(caller));
}

/// Whether an outcome is anything but running out of fuel.
pub open spec fn finished<T>(r: Result<T, ErrorView>) -> bool {
    !(r matches Err(ErrorView::Exhausted))
}

proof fn lemma_fuel_eval(st: StoreView, env: Seq<usize>, d: DatumView, f1: nat, f2: nat)
    requires
        f1 <= f2,
        finished(eval_spec(st, env, d, f1).1),
    ensures
        eval_spec(st, env, d, f2) == eval_spec(st, env, d, f1),
    decreases f1, 0nat, 0nat,
{
    let g1 = (f1 - 1) as nat;
    let g2 = (f2 - 1) as nat;
    match d {
        DatumView::List(l, span) => {
            lemma_fuel_list(st, env, l, span, g1, g2);
        },
        DatumView::VecLit(l, span) => {
            lemma_fuel_seq(st, env, l, g1, g2);
        },
        DatumView::MapLit(l, span) => {
            lemma_fuel_pairs(st, env, l, g1, g2);
        },
        _ => {},
    }
}

proof fn lemma_fuel_seq(st: StoreView, env: Seq<usize>, l: Seq<DatumView>, f1: nat, f2: nat)
    requires
        f1 <= f2,
        finished(eval_seq_spec(st, env, l, f1).1),
    ensures
        eval_seq_spec(st, env, l, f2) == eval_seq_spec(st, env, l, f1),
    decreases f1, 1nat, l.len(),
{
    if l.len() > 0 {
        let (st1, r) = eval_spec(st, env, l[0], f1);
        lemma_fuel_eval(st, env, l[0], f1, f2);
        if r is Ok {
            lemma_fuel_seq(st1, env, l.drop_first(), f1, f2);
        }
    }
}

proof fn lemma_fuel_pairs(
    st: StoreView,
    env: Seq<usize>,
    l: Seq<(DatumView, DatumView)>,
    f1: nat,
    f2: nat,
)
    requires
        f1 <= f2,
        finished(eval_pairs_spec(st, env, l, f1).1),
    ensures
        eval_pairs_spec(st, env, l, f2) == eval_pairs_spec(st, env, l, f1),
    decreases f1, 1nat, l.len(),
{
    if l.len() > 0 {
        let (st1, rk) = eval_spec(st, env, l[0].0, f1);
        lemma_fuel_eval(st, env, l[0].0, f1, f2);
        if rk is Ok {
            let (st2, rv) = eval_spec(st1, env, l[0].1, f1);
            lemma_fuel_eval(st1, env, l[0].1, f1, f2);
            if rv is Ok {
                lemma_fuel_pairs(st2, env, l.drop_first(), f1, f2);
            }
        }
    }
}

proof fn lemma_fuel_body(st: StoreView, env: Seq<usize>, body: Seq<DatumView>, f1: nat, f2: nat)
    requires
        f1 <= f2,
        finished(eval_body_spec(st, env, body, f1).1),
    ensures
        eval_body_spec(st, env, body, f2) == eval_body_spec(st, env, body, f1),
    decreases f1, 1nat, body.len(),
{
    if body.len() > 0 {
        let (st1, r) = eval_spec(st, env, body[0], f1);
        lemma_fuel_eval(st, env, body[0], f1, f2);
        if r is Ok && body.len() != 1 {
            lemma_fuel_body(st1, env, body.drop_first(), f1, f2);
        }
    }
}

proof fn lemma_fuel_vex(
    st: StoreView,
    caller: Seq<usize>,
    vex: VexView,
    args: Seq<DatumView>,
    span: Option<(SpanView, SpanView)>,
    f1: nat,
    f2: nat,
)
    requires
        f1 <= f2,
        finished(call_vex_spec(st, caller, vex, args, span, f1).1),
    ensures
        call_vex_spec(st, caller, vex, args, span, f2) == call_vex_spec(st, caller, vex, args, span, f1),
    decreases f1, 2nat, 0nat,
{
    if arity_fits(vex.params, args.len()) {
        let env = vex.closure.push(st.len() as usize);
        let st1 = vex_bindings(st.push(Seq::empty()), caller, vex, env, args, span);
        lemma_fuel_body(st1, env, vex.body, f1, f2);
    }
}

proof fn lemma_fuel_fun(
    st: StoreView,
    env: Seq<usize>,
    fun: FunView,
    args: Seq<DatumView>,
    span: Option<(SpanView, SpanView)>,
    f1: nat,
    f2: nat,
)
    requires
        f1 <= f2,
        finished(call_fun_spec(st, env, fun, args, span, f1).1),
    ensures
        call_fun_spec(st, env, fun, args, span, f2) == call_fun_spec(st, env, fun, args, span, f1),
    decreases f1, 2nat, 0nat,
{
    let (st1, r) = eval_seq_spec(st, env, args, f1);
    lemma_fuel_seq(st, env, args, f1, f2);
    match r {
        Ok(vals) => if arity_fits(fun.params, vals.len()) {
            let fenv = fun.closure.push(st1.len() as usize);
            let st2 = fun_bindings(st1.push(Seq::empty()), fun, fenv, vals, span);
            lemma_fuel_body(st2, fenv, fun.body, f1, f2);
        },
        Err(_) => {},
    }
}

proof fn lemma_fuel_prim(st: StoreView, env: Seq<usize>, p: Prim, args: Seq<DatumView>, f1: nat, f2: nat)
    requires
        f1 <= f2,
        finished(call_prim_spec(st, env, p, args, f1).1),
    ensures
        call_prim_spec(st, env, p, args, f2) == call_prim_spec(st, env, p, args, f1),
    decreases f1, 4nat, 0nat,
{
    match p {
        Prim::If => {
            if args.len() == 2 || args.len() == 3 {
                let (st1, r) = eval_spec(st, env, args[0], f1);
                lemma_fuel_eval(st, env, args[0], f1, f2);
                if let Ok(c) = r {
                    if is_truthy(c) {
                        lemma_fuel_eval(st1, env, args[1], f1, f2);
                    } else if args.len() == 3 {
                        lemma_fuel_eval(st1, env, args[2], f1, f2);
                    }
                }
            }
        },
        Prim::Define => {
            if args.len() == 2 && args[0] is Symbol {
                lemma_fuel_eval(st, env, args[1], f1, f2);
            }
        },
        Prim::Eval => {
            if args.len() == 1 || args.len() == 2 {
                let (st1, r) = eval_spec(st, env, args[0], f1);
                lemma_fuel_eval(st, env, args[0], f1, f2);
                if let Ok(x) = r {
                    if args.len() == 1 {
                        lemma_fuel_eval(st1, env, x, f1, f2);
                    } else {
                        let (st2, r2) = eval_spec(st1, env, args[1], f1);
                        lemma_fuel_eval(st1, env, args[1], f1, f2);
                        if let Ok(DatumView::Env(e)) = r2 {
                            lemma_fuel_eval(st2, e, x, f1, f2);
                        }
                    }
                }
            }
        },
        _ => {},
    }
}

proof fn lemma_fuel_list(
    st: StoreView,
    env: Seq<usize>,
    list: Seq<DatumView>,
    span: Option<(SpanView, SpanView)>,
    f1: nat,
    f2: nat,
)
    requires
        f1 <= f2,
        finished(eval_list_spec(st, env, list, span, f1).1),
    ensures
        eval_list_spec(st, env, list, span, f2) == eval_list_spec(st, env, list, span, f1),
    decreases f1, 5nat, 0nat,
{
    if list.len() > 0 {
        let (st1, r) = eval_spec(st, env, list[0], f1);
        lemma_fuel_eval(st, env, list[0], f1, f2);
        match r {
            Ok(DatumView::Vex(v)) => lemma_fuel_vex(st1, env, v, list, span, f1, f2),
            Ok(DatumView::Fun(f)) => lemma_fuel_fun(st1, env, f, list.drop_first(), span, f1, f2),
            Ok(DatumView::Prim(p)) => lemma_fuel_prim(st1, env, p, list.drop_first(), f1, f2),
            _ => {},
        }
    }
}

/// Fuel only bounds evaluation: an evaluation that finishes with some fuel
/// has the same outcome, and leaves the same store, with any more fuel.
pub proof fn law_more_fuel_same_outcome(st: StoreView, env: Seq<usize>, d: DatumView, f1: nat, f2: nat)
    requires
        f1 <= f2,
        finished(eval_spec(st, env, d, f1).1),
    ensures
        eval_spec(st, env, d, f2) == eval_spec(st, env, d, f1),
{
    lemma_fuel_eval(st, env, d, f1, f2);
}

// ---------------------------------------------------------------------------
// Evaluation only adds frames
// ---------------------------------------------------------------------------


proof fn lemma_grows_eval(st: StoreView, env: Seq<usize>, d: DatumView, fuel: nat)
    ensures
        st.len() <= eval_spec(st, env, d, fuel).0.len(),
    decreases fuel, 0nat, 0nat,
{
    if fuel > 0 {
        let f = (fuel - 1) as nat;
        match d {
            DatumView::List(l, span) => lemma_grows_list(st, env, l, span, f),
            DatumView::VecLit(l, _) => lemma_grows_seq(st, env, l, f),
            DatumView::MapLit(l, _) => lemma_grows_pairs(st, env, l, f),
            _ => {},
        }
    }
}

proof fn lemma_grows_seq(st: StoreView, env: Seq<usize>, l: Seq<DatumView>, fuel: nat)
    ensures
        st.len() <= eval_seq_spec(st, env, l, fuel).0.len(),
    decreases fuel, 1nat, l.len(),
{
    if l.len() > 0 {
        let (st1, r) = eval_spec(st, env, l[0], fuel);
        lemma_grows_eval(st, env, l[0], fuel);
        if r is Ok {
            lemma_grows_seq(st1, env, l.drop_first(), fuel);
        }
    }
}

proof fn lemma_grows_pairs(st: StoreView, env: Seq<usize>, l: Seq<(DatumView, DatumView)>, fuel: nat)
    ensures
        st.len() <= eval_pairs_spec(st, env, l, fuel).0.len(),
    decreases fuel, 1nat, l.len(),
{
    if l.len() > 0 {
        let (st1, rk) = eval_spec(st, env, l[0].0, fuel);
        lemma_grows_eval(st, env, l[0].0, fuel);
        if rk is Ok {
            let (st2, rv) = eval_spec(st1, env, l[0].1, fuel);
            lemma_grows_eval(st1, env, l[0].1, fuel);
            if rv is Ok {
                lemma_grows_pairs(st2, env, l.drop_first(), fuel);
            }
        }
    }
}

proof fn lemma_grows_body(st: StoreView, env: Seq<usize>, body: Seq<DatumView>, fuel: nat)
    ensures
        st.len() <= eval_body_spec(st, env, body, fuel).0.len(),
    decreases fuel, 1nat, body.len(),
{
    if body.len() > 0 {
        let (st1, r) = eval_spec(st, env, body[0], fuel);
        lemma_grows_eval(st, env, body[0], fuel);
        if r is Ok && body.len() != 1 {
            lemma_grows_body(st1, env, body.drop_first(), fuel);
        }
    }
}

proof fn lemma_grows_prim(st: StoreView, env: Seq<usize>, p: Prim, args: Seq<DatumView>, fuel: nat)
    ensures
        st.len() <= call_prim_spec(st, env, p, args, fuel).0.len(),
    decreases fuel, 4nat, 0nat,
{
    match p {
        Prim::If => {
            if args.len() == 2 || args.len() == 3 {
                let (st1, r) = eval_spec(st, env, args[0], fuel);
                lemma_grows_eval(st, env, args[0], fuel);
                if let Ok(c) = r {
                    if is_truthy(c) {
                        lemma_grows_eval(st1, env, args[1], fuel);
                    } else if args.len() == 3 {
                        lemma_grows_eval(st1, env, args[2], fuel);
                    }
                }
            }
        },
        Prim::Define => {
            if args.len() == 2 && args[0] is Symbol {
                lemma_grows_eval(st, env, args[1], fuel);
            }
        },
        Prim::Eval => {
            if args.len() == 1 || args.len() == 2 {
                let (st1, r) = eval_spec(st, env, args[0], fuel);
                lemma_grows_eval(st, env, args[0], fuel);
                if let Ok(x) = r {
                    if args.len() == 1 {
                        lemma_grows_eval(st1, env, x, fuel);
                    } else {
                        let (st2, r2) = eval_spec(st1, env, args[1], fuel);
                        lemma_grows_eval(st1, env, args[1], fuel);
                        if let Ok(DatumView::Env(e)) = r2 {
                            lemma_grows_eval(st2, e, x, fuel);
                        }
                    }
                }
            }
        },
        _ => {},
    }
}

proof fn lemma_grows_list(
    st: StoreView,
    env: Seq<usize>,
    list: Seq<DatumView>,
    span: Option<(SpanView, SpanView)>,
    fuel: nat,
)
    ensures
        st.len() <= eval_list_spec(st, env, list, span, fuel).0.len(),
    decreases fuel, 5nat, 0nat,
{
    if list.len() > 0 {
        let (st1, r) = eval_spec(st, env, list[0], fuel);
        lemma_grows_eval(st, env, list[0], fuel);
        match r {
            Ok(DatumView::Vex(v)) => {
                if arity_fits(v.params, list.len()) {
                    let e = v.closure.push(st1.len() as usize);
                    let st2 = vex_bindings(st1.push(Seq::empty()), env, v, e, list, span);
                    lemma_bind_fixed_len(st1.push(Seq::empty()), e, v.params.fixed, list);
                    lemma_grows_body(st2, e, v.body, fuel);
                }
            },
            Ok(DatumView::Fun(f)) => {
                let (st2, rv) = eval_seq_spec(st1, env, list.drop_first(), fuel);
                lemma_grows_seq(st1, env, list.drop_first(), fuel);
                if let Ok(vals) = rv {
                    if arity_fits(f.params, vals.len()) {
                        let e = f.closure.push(st2.len() as usize);
                        let st3 = fun_bindings(st2.push(Seq::empty()), f, e, vals, span);
                        lemma_bind_fixed_len(st2.push(Seq::empty()), e, f.params.fixed, vals);
                        lemma_grows_body(st3, e, f.body, fuel);
                    }
                }
            },
            Ok(DatumView::Prim(p)) => lemma_grows_prim(st1, env, p, list.drop_first(), fuel),
            _ => {},
        }
    }
}

/// Evaluation never takes a frame away: every environment whose frames are
/// in the store before an evaluation has them there after it.
pub proof fn law_eval_keeps_environments(
    st: StoreView,
    env: Seq<usize>,
    d: DatumView,
    fuel: nat,
    other: Seq<usize>,
)
    requires
        env_wf(st, other),
    ensures
        env_wf(eval_spec(st, env, d, fuel).0, other),
{
    lemma_grows_eval(st, env, d, fuel);
}

} // verus!
