use crate::heap::Gc;
use vstd::prelude::*;

verus! {

pub struct Cons<T> {
    pub value: Gc<T>,
    pub next: Gc<T>,
}

} // verus!
