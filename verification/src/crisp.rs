use crate::heap::{Heap, Gc};
use crate::env::Env;
use crate::errors::RuntimeError;
use crate::module::Module;
use crate::name::{Symbol, SymbolView};
use std::rc::Rc;
use vstd::prelude::*;

verus! {

/// A crisp system: its global definitions and its crisplets.
pub struct Crisp<T> {
    globals: Module<T>,
    crisplets: Vec<Gc<Crisplet<T>>>,
}

impl<T> Crisp<T> {
    /// The global definitions.
    pub closed spec fn globals_view(&self) -> Map<SymbolView, usize> {
        self.globals.entries@
    }

    /// The positions of the system's crisplets.
    pub closed spec fn crisplets_view(&self) -> Seq<usize> {
        Seq::new(self.crisplets.len() as nat, |i: int| self.crisplets@[i].index)
    }

    /// Whether the global module is the world: it has no name and no span.
    pub closed spec fn globals_is_world(&self) -> bool {
        self.globals.name is None && self.globals.span is None
    }

    /// Creates a new Crisp system, isolated from all others: an unnamed world
    /// module with nothing defined in it, and no crisplets.
    pub fn new() -> (r: Rc<Self>)
        ensures
            (*r).globals_view() == Map::<SymbolView, usize>::empty(),
            (*r).globals_is_world(),
            (*r).crisplets_view() == Seq::<usize>::empty(),
    {
        let c = Crisp { globals: Module::new_world(), crisplets: Vec::new() };
        assert(c.crisplets_view() =~= Seq::<usize>::empty());
        Rc::new(c)
    }

    /// Creates a crisplet of this system running in `env`, stored in `heap`.
    pub fn crisplet(crisp: &Rc<Self>, heap: &mut Heap<Crisplet<T>>, env: Gc<Env<T>>) -> (r: Result<
        Gc<Crisplet<T>>,
        RuntimeError<Crisplet<T>>,
    >)
        ensures
            r matches Ok(g) && g.index == old(heap)@.len() && final(heap)@.len() == old(heap)@.len()
                + 1 && final(heap)@.drop_last() == old(heap)@ && final(heap)@.last().env_index()
                == env.index && final(heap)@.last().stack_view() == Seq::<usize>::empty()
                && final(heap)@.last().system() == *crisp,
    {
        let c = Crisplet::new(Rc::clone(crisp), env);
        match crisp.gc_ref(heap, c) {
            Ok(g) => Ok(g),
            Err(c) => Err(RuntimeError::OutOfMemory(c)),
        }
    }

    /// Attempts to find a bound symbol in the global environment.
    pub fn lookup_global(&self, name: &Symbol) -> (r: Option<Gc<T>>)
        ensures
            match r {
                Some(g) => self.globals_view().dom().contains(name@) && self.globals_view()[name@]
                    == g.index,
                None => !self.globals_view().dom().contains(name@),
            },
    {
        self.globals.lookup(name)
    }

    /// Stores a value in `heap`, giving a handle to it.
    pub fn gc_ref<U>(&self, heap: &mut Heap<U>, value: U) -> (r: Result<Gc<U>, U>)
        ensures
            r matches Ok(g) && g.index == old(heap)@.len() && final(heap)@ == old(heap)@.push(
                value,
            ),
    {
        Ok(heap.allocate(value))
    }
}

/// A lightweight thread of a crisp system: its environment and its stack.
pub struct Crisplet<T> {
    crisp: Rc<Crisp<T>>,
    env: Gc<Env<T>>,
    stack: Vec<Gc<T>>,
}

impl<T> Crisplet<T> {
    /// The system the crisplet belongs to.
    pub closed spec fn system(&self) -> Rc<Crisp<T>> {
        self.crisp
    }

    /// The position of the crisplet's environment.
    pub closed spec fn env_index(&self) -> usize {
        self.env.index
    }

    /// The positions of the values on the crisplet's stack, the latest last.
    pub closed spec fn stack_view(&self) -> Seq<usize> {
        Seq::new(self.stack.len() as nat, |i: int| self.stack@[i].index)
    }

    pub fn new(crisp: Rc<Crisp<T>>, env: Gc<Env<T>>) -> (r: Self)
        ensures
            r.system() == crisp,
            r.env_index() == env.index,
            r.stack_view() == Seq::<usize>::empty(),
    {
        let r = Crisplet { crisp, env, stack: Vec::new() };
        assert(r.stack_view() =~= Seq::<usize>::empty());
        r
    }

    pub fn push(&mut self, value: Gc<T>)
        ensures
            final(self).stack_view() == old(self).stack_view().push(value.index),
            final(self).env_index() == old(self).env_index(),
            final(self).system() == old(self).system(),
    {
        self.stack.push(value);
        assert(self.stack_view() =~= old(self).stack_view().push(value.index));
    }

    /// Stores a value in `heap` and pushes its handle.
    pub fn push_gc(&mut self, heap: &mut Heap<T>, value: T) -> (r: Result<Gc<T>, RuntimeError<T>>)
        ensures
            r matches Ok(g) && g.index == old(heap)@.len() && final(heap)@ == old(heap)@.push(
                value,
            ) && final(self).stack_view() == old(self).stack_view().push(g.index),
            final(self).env_index() == old(self).env_index(),
            final(self).system() == old(self).system(),
    {
        let gc = match self.crisp.gc_ref(heap, value) {
            Ok(gc) => gc,
            Err(value) => {
                return Err(RuntimeError::OutOfMemory(value));
            },
        };
        self.push(gc);
        Ok(gc)
    }
}

pub enum State {
    Runnable,
    Running,
    Done,
}

pub struct Crisplets<T> {
    crisplets: Vec<Crisplet<T>>,
}

} // verus!
