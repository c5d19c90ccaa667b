use crisp::crisp::Crisp;
use crisp::data::{dict_from_pairs, equal_datum, same_datum, Datum, Env, Frame, Store};
use crisp::env::Env as LexEnv;
use crisp::heap::Heap;
use crisp::lexicals::Lexical;
use crisp::module::Module;
use crisp::name::{Name, Symbol};
use std::rc::Rc;

fn num(i: isize) -> Datum {
    Datum::Int(i, None)
}

fn as_int(d: &Option<Datum>) -> isize {
    match d {
        Some(Datum::Int(i, _)) => *i,
        _ => panic!("expected an integer"),
    }
}

#[test]
fn env_define_and_lookup() {
    let mut store = Store::new();
    let env = Env::new_root(&mut store);
    env.define(&mut store, "a".to_string(), num(1));
    env.define(&mut store, "b".to_string(), num(2));
    assert_eq!(as_int(&env.lookup(&store, "a")), 1);
    assert_eq!(as_int(&env.lookup(&store, "b")), 2);
    assert!(env.lookup(&store, "c").is_none());
    // A later definition shadows an earlier one.
    env.define(&mut store, "a".to_string(), num(3));
    assert_eq!(as_int(&env.lookup(&store, "a")), 3);
}

#[test]
fn inner_frames_see_outer_and_shadow() {
    let mut store = Store::new();
    let env = Env::new_root(&mut store);
    env.define(&mut store, "a".to_string(), num(1));
    let inner = env.frame(&mut store);
    assert_eq!(inner.frame_indices().len(), 2);
    assert_eq!(as_int(&inner.lookup(&store, "a")), 1);
    inner.define(&mut store, "a".to_string(), num(2));
    assert_eq!(as_int(&inner.lookup(&store, "a")), 2);
    // The outer environment does not see the inner definition.
    assert_eq!(as_int(&env.lookup(&store, "a")), 1);
}

#[test]
fn frame_update() {
    let mut f = Frame::new();
    f.define("x".to_string(), num(1));
    f.define("x".to_string(), num(2));
    assert!(f.update("x", num(5)).is_ok());
    assert_eq!(as_int(&f.lookup("x")), 5);
    assert_eq!(f.bindings.len(), 2);
    assert!(matches!(f.update("y", num(6)), Err(Datum::Int(6, _))));
}

#[test]
fn truthiness() {
    assert!(!Datum::Nil.is_truthy());
    assert!(!Datum::Bool(false, None).is_truthy());
    assert!(Datum::Bool(true, None).is_truthy());
    assert!(num(0).is_truthy());
}

#[test]
fn lexical_scopes() {
    let mut values: Heap<isize> = Heap::new();
    let one = values.allocate(1);
    let two = values.allocate(2);
    let mut frames: Heap<Lexical<isize>> = Heap::new();
    let mut outer = Lexical::new();
    assert!(outer.assign(Symbol::new("x"), one).is_none());
    let outer_gc = frames.allocate(outer);
    let mut inner = Lexical::nest(outer_gc);
    assert_eq!(inner.lookup(&frames, &Symbol::new("x")).unwrap().index, one.index);
    assert!(inner.lookup(&frames, &Symbol::new("y")).is_none());
    inner.assign(Symbol::new("x"), two);
    assert_eq!(inner.lookup(&frames, &Symbol::new("x")).unwrap().index, two.index);
    assert_eq!(inner.unassign(&Symbol::new("x")).unwrap().index, two.index);
    assert_eq!(inner.lookup(&frames, &Symbol::new("x")).unwrap().index, one.index);
    assert_eq!(inner.unnest().unwrap().index, outer_gc.index);
    assert!(frames.get(outer_gc).unwrap().unnest().is_none());
}

#[test]
fn assign_replaces() {
    let mut values: Heap<isize> = Heap::new();
    let one = values.allocate(1);
    let two = values.allocate(2);
    let mut l: Lexical<isize> = Lexical::new();
    assert!(l.assign(Symbol::new("x"), one).is_none());
    assert_eq!(l.assign(Symbol::new("x"), two).unwrap().index, one.index);
    let frames: Heap<Lexical<isize>> = Heap::new();
    assert_eq!(l.lookup(&frames, &Symbol::new("x")).unwrap().index, two.index);
}

#[test]
fn nested_environments() {
    let mut frames: Heap<Lexical<isize>> = Heap::new();
    let env: LexEnv<isize> = LexEnv::new(&mut frames);
    assert!(env.current_module.is_none());
    let inner = env.nest(&mut frames);
    assert_eq!(frames.len(), 2);
    assert_eq!(frames.get(inner.lexicals).unwrap().unnest().unwrap().index, env.lexicals.index);
}

#[test]
fn modules() {
    let mut values: Heap<isize> = Heap::new();
    let one = values.allocate(1);
    let two = values.allocate(2);
    let mut m: Module<isize> = Module::new(Name::from(Symbol::new("m")), None);
    assert!(m.lookup(&Symbol::new("f")).is_none());
    assert!(m.define(Symbol::new("f"), one).is_none());
    assert_eq!(m.lookup(&Symbol::new("f")).unwrap().index, one.index);
    assert_eq!(m.define(Symbol::new("f"), two).unwrap().index, one.index);
    assert_eq!(m.lookup(&Symbol::new("f")).unwrap().index, two.index);
    let w: Module<isize> = Module::new_world();
    assert!(w.name.is_none());
}

#[test]
fn crisplets() {
    let crisp: Rc<Crisp<isize>> = Crisp::new();
    assert!(crisp.lookup_global(&Symbol::new("x")).is_none());
    let mut envs: Heap<LexEnv<isize>> = Heap::new();
    let mut frames: Heap<Lexical<isize>> = Heap::new();
    let env = envs.allocate(LexEnv::new(&mut frames));
    let mut lets = Heap::new();
    let c = Crisp::crisplet(&crisp, &mut lets, env).ok().unwrap();
    assert_eq!(c.index, 0);
    let mut values: Heap<isize> = Heap::new();
    let mut cl = crisp::crisp::Crisplet::new(crisp.clone(), env);
    let g = cl.push_gc(&mut values, 42).ok().unwrap();
    assert_eq!(*values.get(g).unwrap(), 42);
    cl.push(g);
}

#[test]
fn heap_replace() {
    let mut h: Heap<isize> = Heap::new();
    let a = h.allocate(1);
    assert_eq!(h.replace(a, 5), 1);
    assert_eq!(*h.get(a).unwrap(), 5);
    let mut other: Heap<isize> = Heap::new();
    other.allocate(0);
    let far = other.allocate(0);
    assert_eq!(h.replace(far, 9), 9);
    assert!(h.get(far).is_none());
}

#[test]
fn data_compare_by_contents() {
    let a = Datum::List(vec![num(1), Datum::String(Rc::new("s".to_string()), None)], None);
    let b = Datum::List(vec![num(1), Datum::String(Rc::new("s".to_string()), None)], None);
    let c = Datum::List(vec![num(1), Datum::Keyword(Rc::new("s".to_string()), None)], None);
    assert!(same_datum(&a, &b));
    assert!(!same_datum(&a, &c));
    assert!(!same_datum(&num(1), &num(2)));
    let pairs = vec![(num(1), num(2)), (num(3), num(4)), (num(1), num(5)), (num(3), num(6))];
    let d = dict_from_pairs(&pairs);
    assert_eq!(d.len(), 2);
    assert!(same_datum(&d[0].0, &num(1)) && same_datum(&d[0].1, &num(5)));
    assert!(same_datum(&d[1].0, &num(3)) && same_datum(&d[1].1, &num(6)));
}

#[test]
fn nesting_sees_outer_frames_even_in_a_cycle() {
    let mut values: Heap<isize> = Heap::new();
    let one = values.allocate(1);
    let mut frames: Heap<Lexical<isize>> = Heap::new();
    // Two frames nested in each other: a = 0 inside b = 1, b inside a.
    let a = frames.allocate(Lexical::new());
    let mut b_frame = Lexical::nest(a);
    b_frame.assign(Symbol::new("x"), one);
    let b = frames.allocate(b_frame);
    let _ = frames.replace(a, Lexical::nest(b));
    let inner = Lexical::nest(a);
    let outer = frames.get(a).unwrap();
    // Bound along the cycle: found from both.
    assert_eq!(inner.lookup(&frames, &Symbol::new("x")).unwrap().index, one.index);
    assert_eq!(outer.lookup(&frames, &Symbol::new("x")).unwrap().index, one.index);
    // Bound nowhere: the walk ends, with nothing found, from both.
    assert!(inner.lookup(&frames, &Symbol::new("y")).is_none());
    assert!(outer.lookup(&frames, &Symbol::new("y")).is_none());
}

#[test]
fn a_new_system_is_an_empty_world() {
    let c: Rc<Crisp<isize>> = Crisp::new();
    assert!(c.lookup_global(&Symbol::new("x")).is_none());
}

#[test]
fn environments_compare_by_what_their_frames_hold() {
    let mut store = Store::new();
    let a = Env::new_root(&mut store);
    let b = Env::new_root(&mut store);
    let da = Datum::Env(a.clone());
    let db = Datum::Env(b.clone());
    // Two fresh root environments hold nothing, so they are equal.
    assert_eq!(equal_datum(&store, &da, &db, 1), Some(true));
    // Seeing that takes looking one frame deep.
    assert_eq!(equal_datum(&store, &da, &db, 0), None);
    // An environment is equal to itself without looking inside.
    assert_eq!(equal_datum(&store, &da, &da, 0), Some(true));
    // Different bindings make them differ.
    a.define(&mut store, "x".to_string(), num(1));
    assert_eq!(equal_datum(&store, &da, &db, 5), Some(false));
    b.define(&mut store, "x".to_string(), num(1));
    assert_eq!(equal_datum(&store, &da, &db, 5), Some(true));
    // Frames that hold themselves: the comparison would go on without end.
    a.define(&mut store, "me".to_string(), Datum::Env(a.clone()));
    b.define(&mut store, "me".to_string(), Datum::Env(b.clone()));
    assert_eq!(equal_datum(&store, &da, &db, 20), None);
}

#[test]
fn maps_compare_whatever_the_order() {
    let store = Store::new();
    let m1 = Datum::Dict(vec![(num(1), num(2)), (num(3), num(4))], None);
    let m2 = Datum::Dict(vec![(num(3), num(4)), (num(1), num(2))], None);
    let m3 = Datum::Dict(vec![(num(3), num(4)), (num(1), num(5))], None);
    assert_eq!(equal_datum(&store, &m1, &m2, 0), Some(true));
    assert_eq!(equal_datum(&store, &m1, &m3, 0), Some(false));
    assert!(!same_datum(&m1, &m2));
}
