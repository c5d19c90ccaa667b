//! Handles to objects, and the heaps that hold the objects.
use std::marker::PhantomData;
use vstd::prelude::*;

verus! {

/// A handle to an object in a [`Heap`]: its position there. Handles are
/// cheap to copy and compare; the object itself stays in the heap.
#[derive(Debug, Hash, PartialEq, Eq, Structural)]
pub struct Gc<T> {
    pub index: usize,
    pub marker: PhantomData<T>,
}

impl<T> Clone for Gc<T> {
    fn clone(&self) -> (r: Self)
        ensures
            r == *self,
    {
        Gc { index: self.index, marker: PhantomData }
    }
}

impl<T> Copy for Gc<T> {

}

/// The objects of one type that handles point into. Objects are only ever
/// added or replaced, never removed, so a handle keeps pointing at the same place.
pub struct Heap<T> {
    objects: Vec<T>,
}

impl<T> View for Heap<T> {
    type V = Seq<T>;

    closed spec fn view(&self) -> Seq<T> {
        self.objects@
    }
}

impl<T> Heap<T> {
    pub fn new() -> (r: Heap<T>)
        ensures
            r@ == Seq::<T>::empty(),
    {
        Heap { objects: Vec::new() }
    }

    pub fn len(&self) -> (r: usize)
        ensures
            r == self@.len(),
    {
        self.objects.len()
    }

    /// Stores an object and gives a handle to it.
    pub fn allocate(&mut self, value: T) -> (r: Gc<T>)
        ensures
            final(self)@ == old(self)@.push(value),
            r.index == old(self)@.len(),
    {
        let index = self.objects.len();
        self.objects.push(value);
        Gc { index, marker: PhantomData }
    }

    /// The object a handle points at, if it is in this heap.
    pub fn get(&self, gc: Gc<T>) -> (r: Option<&T>)
        ensures
            gc.index < self@.len() ==> r == Some(&self@[gc.index as int]),
            gc.index >= self@.len() ==> r is None,
    {
        if gc.index < self.objects.len() {
            Some(&self.objects[gc.index])
        } else {
            None
        }
    }

    /// Replaces the object a handle points at, giving back the old one.
    /// A handle outside the heap gives the new object back.
    pub fn replace(&mut self, gc: Gc<T>, value: T) -> (r: T)
        ensures
            gc.index < old(self)@.len() ==> final(self)@ == old(self)@.update(gc.index as int, value)
                && r == old(self)@[gc.index as int],
            gc.index >= old(self)@.len() ==> final(self)@ == old(self)@ && r == value,
    {
        if gc.index < self.objects.len() {
            let old_value = self.objects.remove(gc.index);
            self.objects.insert(gc.index, value);
            assert(self.objects@ =~= old(self)@.update(gc.index as int, value));
            old_value
        } else {
            value
        }
    }
}

} // verus!
