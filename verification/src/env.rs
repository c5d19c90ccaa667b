use crate::heap::{Heap, Gc};
use crate::lexicals::Lexical;
use crate::name::{clone_opt_name, opt_name_view, Name};
use vstd::prelude::*;

verus! {

/// The lexical environment, mostly, but also the name of the current module (if any)
#[derive(Clone, Debug, Hash)]
pub struct Env<T> {
    pub current_module: Option<Name>,
    pub lexicals: Gc<Lexical<T>>,
}

impl<T> Env<T> {
    /// Creates a new environment for computation, with its outermost frame
    /// stored in `frames`.
    pub fn new(frames: &mut Heap<Lexical<T>>) -> (r: Self)
        ensures
            r.current_module is None,
            r.lexicals.index == old(frames)@.len(),
            final(frames)@.len() == old(frames)@.len() + 1,
            final(frames)@.drop_last() == old(frames)@,
            final(frames)@.last()@.items.is_empty(),
            final(frames)@.last()@.prev is None,
    {
        let lexicals = frames.allocate(Lexical::new());
        proof {
            assert(frames@.drop_last() =~= old(frames)@);
        }
        Env { current_module: None, lexicals }
    }

    /// An environment with a new frame, stored in `frames`, inside this one.
    pub fn nest(&self, frames: &mut Heap<Lexical<T>>) -> (r: Self)
        ensures
            opt_name_view(r.current_module) == opt_name_view(self.current_module),
            r.lexicals.index == old(frames)@.len(),
            final(frames)@.len() == old(frames)@.len() + 1,
            final(frames)@.drop_last() == old(frames)@,
            final(frames)@.last()@.items.is_empty(),
            final(frames)@.last()@.prev == Some(self.lexicals.index),
    {
        let lexicals = frames.allocate(Lexical::nest(self.lexicals));
        proof {
            assert(frames@.drop_last() =~= old(frames)@);
        }
        Env { current_module: clone_opt_name(&self.current_module), lexicals }
    }
}

} // verus!
