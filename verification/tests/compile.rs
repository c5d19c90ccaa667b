use crisp::l1::{literal_to_l1, L1};
use crisp::literal::{Int, List, Literal, Quoted, Str};
use crisp::machine::{compile_l1, L1 as M};
use crisp::name::Symbol;

fn num(i: isize) -> Literal {
    Literal::Int(Int { prev: None, value: i })
}

fn sym(s: &str) -> Literal {
    Literal::Symbol(Symbol::new(s))
}

fn list(values: Vec<Literal>) -> Literal {
    Literal::List(List { prev: None, values })
}

fn is_int(l: &Literal, i: isize) -> bool {
    matches!(l, Literal::Int(Int { value, .. }) if *value == i)
}

#[test]
fn constants_load_themselves() {
    match literal_to_l1(num(3), L1::EndOfFile).ok().unwrap() {
        L1::Constant(c) => {
            assert!(is_int(&c.value, 3));
            assert!(matches!(*c.next, L1::EndOfFile));
        }
        _ => panic!("expected a constant"),
    }
    let s = Literal::String(Str { prev: None, value: "hi".to_string() });
    assert!(matches!(literal_to_l1(s, L1::EndOfFile).ok().unwrap(), L1::Constant(_)));
}

#[test]
fn symbols_are_looked_up() {
    match literal_to_l1(sym("x"), L1::EndOfFile).ok().unwrap() {
        L1::Lookup(l) => {
            assert_eq!(l.name.as_str(), "x");
            assert!(matches!(*l.next, L1::EndOfFile));
        }
        _ => panic!("expected a lookup"),
    }
}

#[test]
fn quoted_values_are_unquoted() {
    let q = Literal::Quoted(Quoted { prev: None, value: Box::new(sym("x")) });
    match literal_to_l1(q, L1::EndOfFile).ok().unwrap() {
        L1::Constant(c) => assert!(matches!(c.value, Literal::Symbol(_))),
        _ => panic!("expected a constant"),
    }
}

#[test]
fn empty_list_is_a_constant() {
    assert!(matches!(literal_to_l1(list(vec![]), L1::EndOfFile).ok().unwrap(), L1::Constant(_)));
}

#[test]
fn calls_follow_the_left_spine() {
    // ((foo 1) 2): look up foo, call (foo 1), call ((foo 1) 2), then carry on.
    let inner = list(vec![sym("foo"), num(1)]);
    let outer = list(vec![inner, num(2)]);
    let p = literal_to_l1(outer, L1::EndOfFile).ok().unwrap();
    let L1::Lookup(l) = p else { panic!("expected a lookup") };
    assert_eq!(l.name.as_str(), "foo");
    let L1::Call(c1) = *l.next else { panic!("expected a call") };
    match &c1.list {
        Literal::List(x) => assert_eq!(x.values.len(), 2),
        _ => panic!("expected a list"),
    }
    let L1::Call(c2) = *c1.next else { panic!("expected a call") };
    match &c2.list {
        Literal::List(x) => assert!(matches!(x.values[0], Literal::List(_))),
        _ => panic!("expected a list"),
    }
    assert!(matches!(*c2.next, L1::EndOfFile));
}

#[test]
fn compile_body() {
    let p = compile_l1(vec![num(1), num(2)]).ok().unwrap();
    let M::Constant(c1) = p else { panic!("expected a constant") };
    assert!(is_int(&c1.value, 1));
    let M::Constant(c2) = &*c1.next else { panic!("expected a constant") };
    assert!(is_int(&c2.value, 2));
    let M::Constant(c3) = &*c2.next else { panic!("expected a constant") };
    assert!(matches!(&c3.value, Literal::List(l) if l.values.is_empty()));
    assert!(matches!(*c3.next, M::Return));
}

#[test]
fn compile_empty_body() {
    let p = compile_l1(vec![]).ok().unwrap();
    let M::Constant(c) = p else { panic!("expected a constant") };
    assert!(matches!(&c.value, Literal::List(l) if l.values.is_empty()));
    assert!(matches!(*c.next, M::Return));
}

#[test]
fn compile_empty_list_goes_on_with_the_rest() {
    let p = compile_l1(vec![list(vec![]), num(2)]).ok().unwrap();
    let M::Constant(c) = p else { panic!("expected a constant") };
    assert!(matches!(&c.value, Literal::List(l) if l.values.is_empty()));
    let M::Constant(c2) = &*c.next else { panic!("expected the later form") };
    assert!(is_int(&c2.value, 2));
    let M::Constant(c3) = &*c2.next else { panic!("expected the final empty list") };
    assert!(matches!(&c3.value, Literal::List(l) if l.values.is_empty()));
    assert!(matches!(*c3.next, M::Return));
}

#[test]
fn compile_quoted() {
    let q = Literal::Quoted(Quoted { prev: None, value: Box::new(sym("x")) });
    let p = compile_l1(vec![q]).ok().unwrap();
    let M::Constant(c) = p else { panic!("expected a constant") };
    assert!(matches!(&c.value, Literal::Symbol(_)));
}
