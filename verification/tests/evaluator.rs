use crisp::data::{Datum, Env, Fun, Param, Params, Prim, Store, Vex};
use crisp::evaluator::{eval, Error};
use crisp::source::{Source, Span};
use std::rc::Rc;

const FUEL: u64 = 1000;

fn sym(s: &str) -> Datum {
    Datum::Symbol(Rc::new(s.to_string()), None)
}

fn num(i: isize) -> Datum {
    Datum::Int(i, None)
}

fn list(items: Vec<Datum>) -> Datum {
    Datum::List(items, None)
}

fn span() -> Span {
    Span::new(Rc::new(Source::new(None, "(f 1)".to_string())), 0, 5)
}

fn param(name: &str) -> Param {
    Param { name: Some(name.to_string()), span: span() }
}

fn params(fixed: &[&str], scoop: Option<&str>) -> Params {
    Params {
        fixed: fixed.iter().map(|n| param(n)).collect(),
        scoop: scoop.map(param),
        call_span: None,
        whole: None,
    }
}

fn as_int(d: &Datum) -> isize {
    match d {
        Datum::Int(i, _) => *i,
        _ => panic!("expected an integer"),
    }
}

fn setup() -> (Store, Env) {
    let mut store = Store::new();
    let env = Env::new_root(&mut store);
    (store, env)
}

#[test]
fn integers_evaluate_to_themselves() {
    let (mut store, env) = setup();
    let r = eval(&env, &num(42), &mut store, FUEL).ok().unwrap();
    assert_eq!(as_int(&r), 42);
    assert_eq!(store.len(), 1);
}

#[test]
fn no_fuel_is_exhausted() {
    let (mut store, env) = setup();
    assert!(matches!(eval(&env, &num(1), &mut store, 0), Err(Error::Exhausted)));
}

#[test]
fn undefined_symbol_is_an_error() {
    let (mut store, env) = setup();
    assert!(matches!(eval(&env, &sym("x"), &mut store, FUEL), Err(Error::Undefined(_, _))));
}

#[test]
fn define_then_lookup() {
    let (mut store, env) = setup();
    let form = list(vec![Datum::Prim(Prim::Define), sym("x"), num(5)]);
    let r = eval(&env, &form, &mut store, FUEL).ok().unwrap();
    assert!(matches!(r, Datum::Nil));
    let x = eval(&env, &sym("x"), &mut store, FUEL).ok().unwrap();
    assert_eq!(as_int(&x), 5);
}

#[test]
fn define_needs_a_symbol() {
    let (mut store, env) = setup();
    let form = list(vec![Datum::Prim(Prim::Define), num(1), num(5)]);
    assert!(matches!(eval(&env, &form, &mut store, FUEL), Err(Error::ExpectedBinding(_))));
}

#[test]
fn define_arity() {
    let (mut store, env) = setup();
    let few = list(vec![Datum::Prim(Prim::Define), sym("x")]);
    assert!(matches!(
        eval(&env, &few, &mut store, FUEL),
        Err(Error::PrimTooFewArgs(Prim::Define, _))
    ));
    let many = list(vec![Datum::Prim(Prim::Define), sym("x"), num(1), num(2)]);
    assert!(matches!(
        eval(&env, &many, &mut store, FUEL),
        Err(Error::PrimTooManyArgs(Prim::Define, _))
    ));
}

#[test]
fn if_chooses_by_truthiness() {
    let (mut store, env) = setup();
    let t = list(vec![Datum::Prim(Prim::If), Datum::Bool(true, None), num(1), num(2)]);
    assert_eq!(as_int(&eval(&env, &t, &mut store, FUEL).ok().unwrap()), 1);
    let f = list(vec![Datum::Prim(Prim::If), Datum::Bool(false, None), num(1), num(2)]);
    assert_eq!(as_int(&eval(&env, &f, &mut store, FUEL).ok().unwrap()), 2);
    let n = list(vec![Datum::Prim(Prim::If), Datum::Nil, num(1)]);
    assert!(matches!(eval(&env, &n, &mut store, FUEL).ok().unwrap(), Datum::Nil));
    // Zero is truthy: only nil and false are falsy.
    let z = list(vec![Datum::Prim(Prim::If), num(0), num(1), num(2)]);
    assert_eq!(as_int(&eval(&env, &z, &mut store, FUEL).ok().unwrap()), 1);
}

#[test]
fn if_arity() {
    let (mut store, env) = setup();
    let few = list(vec![Datum::Prim(Prim::If), num(1)]);
    assert!(matches!(eval(&env, &few, &mut store, FUEL), Err(Error::PrimTooFewArgs(Prim::If, _))));
    let many = list(vec![Datum::Prim(Prim::If), num(1), num(2), num(3), num(4)]);
    assert!(matches!(
        eval(&env, &many, &mut store, FUEL),
        Err(Error::PrimTooManyArgs(Prim::If, _))
    ));
}

#[test]
fn eval_evaluates_twice() {
    let (mut store, env) = setup();
    env.define(&mut store, "x".to_string(), num(5));
    env.define(&mut store, "y".to_string(), sym("x"));
    let form = list(vec![Datum::Prim(Prim::Eval), sym("y")]);
    assert_eq!(as_int(&eval(&env, &form, &mut store, FUEL).ok().unwrap()), 5);
}

#[test]
fn eval_in_another_environment() {
    let (mut store, env) = setup();
    let other = Env::new_root(&mut store);
    other.define(&mut store, "x".to_string(), num(7));
    env.define(&mut store, "e".to_string(), Datum::Env(other.clone()));
    env.define(&mut store, "q".to_string(), sym("x"));
    let form = list(vec![Datum::Prim(Prim::Eval), sym("q"), sym("e")]);
    assert_eq!(as_int(&eval(&env, &form, &mut store, FUEL).ok().unwrap()), 7);
    let bad = list(vec![Datum::Prim(Prim::Eval), sym("q"), num(3)]);
    assert!(matches!(eval(&env, &bad, &mut store, FUEL), Err(Error::ExpectedEnv(_))));
    let none = list(vec![Datum::Prim(Prim::Eval)]);
    assert!(matches!(
        eval(&env, &none, &mut store, FUEL),
        Err(Error::PrimTooFewArgs(Prim::Eval, _))
    ));
}

#[test]
fn calling_a_number_fails() {
    let (mut store, env) = setup();
    let form = list(vec![num(1), num(2)]);
    assert!(matches!(eval(&env, &form, &mut store, FUEL), Err(Error::NotCallable(_, _))));
}

#[test]
fn empty_list_is_itself() {
    let (mut store, env) = setup();
    match eval(&env, &list(vec![]), &mut store, FUEL).ok().unwrap() {
        Datum::List(items, _) => assert!(items.is_empty()),
        _ => panic!("expected a list"),
    }
}

#[test]
fn vector_and_map_literals_evaluate_their_items() {
    let (mut store, env) = setup();
    env.define(&mut store, "x".to_string(), num(3));
    let v = Datum::VecLit(vec![sym("x"), num(4)], None);
    match eval(&env, &v, &mut store, FUEL).ok().unwrap() {
        Datum::Vec(items, _) => {
            assert_eq!(items.len(), 2);
            assert_eq!(as_int(&items[0]), 3);
            assert_eq!(as_int(&items[1]), 4);
        }
        _ => panic!("expected a vector"),
    }
    let m = Datum::MapLit(vec![(num(1), sym("x"))], None);
    match eval(&env, &m, &mut store, FUEL).ok().unwrap() {
        Datum::Dict(items, _) => {
            assert_eq!(items.len(), 1);
            assert_eq!(as_int(&items[0].0), 1);
            assert_eq!(as_int(&items[0].1), 3);
        }
        _ => panic!("expected a map"),
    }
    let bad = Datum::VecLit(vec![sym("nope")], None);
    assert!(matches!(eval(&env, &bad, &mut store, FUEL), Err(Error::Undefined(_, _))));
}

fn fun(env: &Env, p: Params, body: Vec<Datum>) -> Datum {
    Datum::Fun(Rc::new(Fun { params: p, closure: env.clone(), body, span: None }))
}

#[test]
fn functions_bind_evaluated_arguments() {
    let (mut store, env) = setup();
    env.define(&mut store, "id".to_string(), fun(&env, params(&["a"], None), vec![sym("a")]));
    env.define(&mut store, "x".to_string(), num(9));
    let form = list(vec![sym("id"), sym("x")]);
    assert_eq!(as_int(&eval(&env, &form, &mut store, FUEL).ok().unwrap()), 9);
    // The parameter is bound in a new frame, not in the caller's.
    assert!(env.lookup(&store, "a").is_none());
}

#[test]
fn function_arity() {
    let (mut store, env) = setup();
    env.define(&mut store, "f".to_string(), fun(&env, params(&["a", "b"], None), vec![sym("a")]));
    let few = list(vec![sym("f"), num(1)]);
    assert!(matches!(eval(&env, &few, &mut store, FUEL), Err(Error::TooFewArgs(_, _, _))));
    let many = list(vec![sym("f"), num(1), num(2), num(3)]);
    assert!(matches!(eval(&env, &many, &mut store, FUEL), Err(Error::TooManyArgs(_, _, _))));
}

#[test]
fn scoop_collects_the_rest() {
    let (mut store, env) = setup();
    env.define(&mut store, "f".to_string(), fun(&env, params(&["a"], Some("ns")), vec![sym("ns")]));
    let form = list(vec![sym("f"), num(1), num(2), num(3)]);
    match eval(&env, &form, &mut store, FUEL).ok().unwrap() {
        Datum::List(items, _) => {
            assert_eq!(items.len(), 2);
            assert_eq!(as_int(&items[0]), 2);
            assert_eq!(as_int(&items[1]), 3);
        }
        _ => panic!("expected a list"),
    }
    let few = list(vec![sym("f")]);
    assert!(matches!(eval(&env, &few, &mut store, FUEL), Err(Error::TooFewArgs(_, _, _))));
}

#[test]
fn function_body_gives_its_last_value() {
    let (mut store, env) = setup();
    env.define(&mut store, "f".to_string(), fun(&env, params(&[], None), vec![num(1), num(2)]));
    let form = list(vec![sym("f")]);
    assert_eq!(as_int(&eval(&env, &form, &mut store, FUEL).ok().unwrap()), 2);
    env.define(&mut store, "g".to_string(), fun(&env, params(&[], None), vec![]));
    assert!(matches!(eval(&env, &list(vec![sym("g")]), &mut store, FUEL).ok().unwrap(), Datum::Nil));
}

#[test]
fn closures_see_later_definitions() {
    // The function is made before `later` is defined in its environment,
    // yet sees it: the frame is shared.
    let (mut store, env) = setup();
    env.define(&mut store, "f".to_string(), fun(&env, params(&[], None), vec![sym("later")]));
    env.define(&mut store, "later".to_string(), num(11));
    let form = list(vec![sym("f")]);
    assert_eq!(as_int(&eval(&env, &form, &mut store, FUEL).ok().unwrap()), 11);
}

#[test]
fn recursion_runs_out_of_fuel() {
    let (mut store, env) = setup();
    env.define(&mut store, "loop".to_string(), fun(&env, params(&[], None), vec![list(vec![sym("loop")])]));
    let form = list(vec![sym("loop")]);
    assert!(matches!(eval(&env, &form, &mut store, 50), Err(Error::Exhausted)));
}

#[test]
fn call_span_is_bound() {
    let (mut store, env) = setup();
    let mut p = params(&[], None);
    p.call_span = Some(param("here"));
    env.define(&mut store, "f".to_string(), fun(&env, p, vec![sym("here")]));
    let form = Datum::List(vec![sym("f")], Some((span(), span())));
    match eval(&env, &form, &mut store, FUEL).ok().unwrap() {
        Datum::SurroundSpan(a, b) => {
            assert_eq!(a.start, 0);
            assert_eq!(b.end, 5);
        }
        _ => panic!("expected a span"),
    }
}

#[test]
fn vexes_receive_the_call_unevaluated() {
    let (mut store, env) = setup();
    let v = Vex {
        params: params(&["me", "arg"], None),
        env: param("caller"),
        closure: env.clone(),
        body: vec![sym("arg")],
        span: None,
    };
    env.define(&mut store, "v".to_string(), Datum::Vex(Rc::new(v)));
    // `undefined` is never evaluated: the vex gets the symbol itself.
    let form = list(vec![sym("v"), sym("undefined")]);
    match eval(&env, &form, &mut store, FUEL).ok().unwrap() {
        Datum::Symbol(s, _) => assert_eq!(s.as_str(), "undefined"),
        _ => panic!("expected a symbol"),
    }
}

#[test]
fn vexes_receive_the_calling_environment() {
    let (mut store, env) = setup();
    let v = Vex {
        params: params(&["me"], Some("rest")),
        env: param("caller"),
        closure: env.clone(),
        body: vec![sym("caller")],
        span: None,
    };
    env.define(&mut store, "v".to_string(), Datum::Vex(Rc::new(v)));
    let form = list(vec![sym("v"), num(1)]);
    match eval(&env, &form, &mut store, FUEL).ok().unwrap() {
        Datum::Env(e) => assert_eq!(e.frame_indices(), env.frame_indices()),
        _ => panic!("expected an environment"),
    }
    let v2 = Vex {
        params: params(&["me", "a"], None),
        env: param("caller"),
        closure: env.clone(),
        body: vec![],
        span: None,
    };
    env.define(&mut store, "v2".to_string(), Datum::Vex(Rc::new(v2)));
    let few = list(vec![sym("v2")]);
    assert!(matches!(eval(&env, &few, &mut store, FUEL), Err(Error::TooFewArgs(_, _, _))));
}

#[test]
fn fn_and_vex_primitives_are_not_implemented() {
    let (mut store, env) = setup();
    let f = list(vec![Datum::Prim(Prim::Fn), Datum::VecLit(vec![sym("x")], None), sym("x")]);
    assert!(matches!(eval(&env, &f, &mut store, FUEL), Err(Error::Unimplemented(Prim::Fn))));
    let f2 = list(vec![Datum::Prim(Prim::Fn), num(1)]);
    assert!(matches!(eval(&env, &f2, &mut store, FUEL), Err(Error::ExpectedParams(_))));
    let f3 = list(vec![Datum::Prim(Prim::Fn)]);
    assert!(matches!(eval(&env, &f3, &mut store, FUEL), Err(Error::PrimTooFewArgs(Prim::Fn, _))));
    let v = list(vec![Datum::Prim(Prim::Vex)]);
    assert!(matches!(eval(&env, &v, &mut store, FUEL), Err(Error::Unimplemented(Prim::Vex))));
}

#[test]
fn more_fuel_gives_the_same_value() {
    let form = list(vec![
        fun(&setup().1, params(&["a", "b"], None), vec![sym("b")]),
        num(3),
        num(4),
    ]);
    let mut small = 1u64;
    let value = loop {
        let (mut store, env) = setup();
        match eval(&env, &form, &mut store, small) {
            Err(Error::Exhausted) => small += 1,
            other => break as_int(&other.ok().unwrap()),
        }
    };
    assert_eq!(value, 4);
    for fuel in [small, small + 1, small * 10, FUEL] {
        let (mut store, env) = setup();
        assert_eq!(as_int(&eval(&env, &form, &mut store, fuel).ok().unwrap()), 4);
    }
}

#[test]
fn map_literal_keeps_the_last_value_of_a_key() {
    let (mut store, env) = setup();
    env.define(&mut store, "x".to_string(), num(3));
    let m = Datum::MapLit(
        vec![(num(1), num(10)), (num(2), sym("x")), (num(1), num(30))],
        None,
    );
    match eval(&env, &m, &mut store, FUEL).ok().unwrap() {
        Datum::Dict(items, _) => {
            assert_eq!(items.len(), 2);
            assert_eq!(as_int(&items[0].0), 1);
            assert_eq!(as_int(&items[0].1), 30);
            assert_eq!(as_int(&items[1].0), 2);
            assert_eq!(as_int(&items[1].1), 3);
        }
        _ => panic!("expected a map"),
    }
    // Keys are compared with their spans: a key written elsewhere is another key.
    let spanned = Datum::Int(1, Some(span()));
    let m = Datum::MapLit(vec![(num(1), num(10)), (spanned, num(20))], None);
    match eval(&env, &m, &mut store, FUEL).ok().unwrap() {
        Datum::Dict(items, _) => assert_eq!(items.len(), 2),
        _ => panic!("expected a map"),
    }
    // A key that fails to evaluate fails the whole literal.
    let bad = Datum::MapLit(vec![(num(1), num(10)), (sym("nope"), num(20))], None);
    assert!(matches!(eval(&env, &bad, &mut store, FUEL), Err(Error::Undefined(_, _))));
}

#[test]
fn if_leaves_the_other_branch_unevaluated() {
    let (mut store, env) = setup();
    let def = |n: &str, v: isize| list(vec![Datum::Prim(Prim::Define), sym(n), num(v)]);
    let t = list(vec![Datum::Prim(Prim::If), Datum::Bool(true, None), def("a", 1), def("b", 2)]);
    eval(&env, &t, &mut store, FUEL).ok().unwrap();
    assert!(env.lookup(&store, "a").is_some());
    assert!(env.lookup(&store, "b").is_none());
    // An undefined symbol in the branch not taken is never looked up.
    let f = list(vec![Datum::Prim(Prim::If), Datum::Nil, sym("nope"), num(7)]);
    assert_eq!(as_int(&eval(&env, &f, &mut store, FUEL).ok().unwrap()), 7);
}

#[test]
fn a_vex_call_binds_only_in_its_own_frame() {
    let (mut store, env) = setup();
    let v = Vex {
        params: params(&["me", "a"], Some("rest")),
        env: param("caller"),
        closure: env.clone(),
        body: vec![],
        span: None,
    };
    env.define(&mut store, "v".to_string(), Datum::Vex(Rc::new(v)));
    let form = list(vec![sym("v"), num(1), num(2)]);
    assert!(matches!(eval(&env, &form, &mut store, FUEL).ok().unwrap(), Datum::Nil));
    for n in ["me", "a", "rest", "caller"] {
        assert!(env.lookup(&store, n).is_none());
    }
}
