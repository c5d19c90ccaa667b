//! Names bound to handles, as lexical frames and modules keep them.
use crate::heap::Gc;
use crate::name::{Symbol, SymbolView};
use vstd::prelude::*;

verus! {

/// Symbols bound to handles. Binding a symbol again replaces its binding.
#[derive(Clone, Debug, Hash)]
pub struct Bindings<T> {
    entries: Vec<(Symbol, Gc<T>)>,
}

/// The bindings a sequence of entries makes: later entries win.
pub open spec fn entries_map<T>(s: Seq<(Symbol, Gc<T>)>) -> Map<SymbolView, usize>
    decreases s.len(),
{
    if s.len() == 0 {
        Map::empty()
    } else {
        entries_map(s.drop_last()).insert(s.last().0@, s.last().1.index)
    }
}

impl<T> View for Bindings<T> {
    type V = Map<SymbolView, usize>;

    closed spec fn view(&self) -> Map<SymbolView, usize> {
        entries_map(self.entries@)
    }
}

/// Where no entry from `i` on is for `k`, the entries before `i` decide `k`.
proof fn lemma_entries_prefix<T>(s: Seq<(Symbol, Gc<T>)>, k: SymbolView, i: int)
    requires
        0 <= i <= s.len(),
        forall|j: int| i <= j < s.len() ==> s[j].0@ != k,
    ensures
        entries_map(s).dom().contains(k) == entries_map(s.take(i)).dom().contains(k),
        entries_map(s).dom().contains(k) ==> entries_map(s)[k] == entries_map(s.take(i))[k],
    decreases s.len() - i,
{
    if i < s.len() {
        assert(s.drop_last().take(i) =~= s.take(i));
        lemma_entries_prefix(s.drop_last(), k, i);
    } else {
        assert(s.take(i) =~= s);
    }
}

/// Rebinding at the last entry for `k` is inserting into the bindings.
proof fn lemma_entries_update<T>(s: Seq<(Symbol, Gc<T>)>, j: int, e: (Symbol, Gc<T>))
    requires
        0 <= j < s.len(),
        s[j].0@ == e.0@,
        forall|m: int| j < m < s.len() ==> s[m].0@ != e.0@,
    ensures
        entries_map(s.update(j, e)) == entries_map(s).insert(e.0@, e.1.index),
    decreases s.len(),
{
    if j == s.len() - 1 {
        assert(s.update(j, e).drop_last() =~= s.drop_last());
        assert(entries_map(s.drop_last()).insert(s.last().0@, s.last().1.index).insert(
            e.0@,
            e.1.index,
        ) =~= entries_map(s.drop_last()).insert(e.0@, e.1.index));
    } else {
        lemma_entries_update(s.drop_last(), j, e);
        assert(s.update(j, e).drop_last() =~= s.drop_last().update(j, e));
        assert(entries_map(s.drop_last()).insert(e.0@, e.1.index).insert(
            s.last().0@,
            s.last().1.index,
        ) =~= entries_map(s.drop_last()).insert(s.last().0@, s.last().1.index).insert(
            e.0@,
            e.1.index,
        ));
    }
}

/// Whether an entry is for a symbol other than `k`.
pub open spec fn other_than<T>(k: SymbolView) -> spec_fn((Symbol, Gc<T>)) -> bool {
    |e: (Symbol, Gc<T>)| e.0@ != k
}

/// Dropping the entries for `k` is removing `k` from the bindings.
proof fn lemma_entries_without<T>(s: Seq<(Symbol, Gc<T>)>, k: SymbolView)
    ensures
        entries_map(s.filter(other_than::<T>(k))) == entries_map(s).remove(k),
    decreases s.len(),
{
    reveal_with_fuel(Seq::filter, 1);
    let p = other_than::<T>(k);
    if s.len() == 0 {
        assert(s.filter(p) =~= Seq::<(Symbol, Gc<T>)>::empty());
        assert(entries_map(s).remove(k) =~= Map::<SymbolView, usize>::empty());
    } else {
        lemma_entries_without(s.drop_last(), k);
        assert(s.filter(p) == if p(s.last()) {
            s.drop_last().filter(p).push(s.last())
        } else {
            s.drop_last().filter(p)
        });
        assert(s.drop_last().filter(p).push(s.last()).drop_last() =~= s.drop_last().filter(p));
        if s.last().0@ == k {
            assert(entries_map(s).remove(k) =~= entries_map(s.drop_last()).remove(k));
        } else {
            assert(entries_map(s).remove(k) =~= entries_map(s.drop_last()).remove(k).insert(
                s.last().0@,
                s.last().1.index,
            ));
        }
    }
}

impl<T> Bindings<T> {
    pub fn new() -> (r: Bindings<T>)
        ensures
            r@ == Map::<SymbolView, usize>::empty(),
    {
        Bindings { entries: Vec::new() }
    }

    /// The handle bound to `name`, if any.
    pub fn get(&self, name: &Symbol) -> (r: Option<Gc<T>>)
        ensures
            match r {
                Some(g) => self@.dom().contains(name@) && self@[name@] == g.index,
                None => !self@.dom().contains(name@),
            },
    {
        let mut i = self.entries.len();
        while i > 0
            invariant
                i <= self.entries.len(),
                forall|j: int| i <= j < self.entries@.len() ==> self.entries@[j].0@ != name@,
            decreases i,
        {
            i = i - 1;
            if self.entries[i].0.same(name) {
                proof {
                    lemma_entries_prefix(self.entries@, name@, i + 1);
                    assert(self.entries@.take(i + 1).drop_last() =~= self.entries@.take(i as int));
                }
                return Some(self.entries[i].1);
            }
        }
        proof {
            lemma_entries_prefix(self.entries@, name@, 0);
            assert(self.entries@.take(0) =~= Seq::<(Symbol, Gc<T>)>::empty());
        }
        None
    }

    /// Binds `name` to `value`, giving back the handle it was bound to, if any.
    pub fn insert(&mut self, name: Symbol, value: Gc<T>) -> (r: Option<Gc<T>>)
        ensures
            final(self)@ == old(self)@.insert(name@, value.index),
            match r {
                Some(g) => old(self)@.dom().contains(name@) && old(self)@[name@] == g.index,
                None => !old(self)@.dom().contains(name@),
            },
    {
        let previous = self.get(&name);
        let mut i = self.entries.len();
        while i > 0
            invariant
                i <= self.entries.len(),
                self.entries == old(self).entries,
                match previous {
                    Some(g) => old(self)@.dom().contains(name@) && old(self)@[name@] == g.index,
                    None => !old(self)@.dom().contains(name@),
                },
                forall|j: int| i <= j < self.entries@.len() ==> self.entries@[j].0@ != name@,
            decreases i,
        {
            i = i - 1;
            if self.entries[i].0.same(&name) {
                let ghost before = self.entries@;
                let ghost e = (name, value);
                self.entries.set(i, (name, value));
                proof {
                    lemma_entries_update(before, i as int, e);
                }
                return previous;
            }
        }
        let ghost before = self.entries@;
        self.entries.push((name, value));
        proof {
            assert(self.entries@.drop_last() =~= before);
        }
        previous
    }

    /// Unbinds `name`, giving back the handle it was bound to, if any.
    pub fn remove(&mut self, name: &Symbol) -> (r: Option<Gc<T>>)
        ensures
            final(self)@ == old(self)@.remove(name@),
            match r {
                Some(g) => old(self)@.dom().contains(name@) && old(self)@[name@] == g.index,
                None => !old(self)@.dom().contains(name@),
            },
    {
        let previous = self.get(name);
        let ghost k = name@;
        let ghost pred = other_than::<T>(k);
        let mut kept: Vec<(Symbol, Gc<T>)> = Vec::new();
        let mut entries: Vec<(Symbol, Gc<T>)> = Vec::new();
        std::mem::swap(&mut entries, &mut self.entries);
        let ghost all = entries@;
        let n = entries.len();
        assert(all.take(0).filter(pred) =~= Seq::<(Symbol, Gc<T>)>::empty()) by {
            reveal_with_fuel(Seq::filter, 1);
        }
        // Take the entries out from the front, keeping those for other names.
        let mut rest = Vec::new();
        while entries.len() > 0
            invariant
                entries@.len() + rest@.len() == n,
                n == all.len(),
                entries@ == all.subrange(0, entries@.len() as int),
                rest@ == all.subrange(entries@.len() as int, n as int).reverse(),
            decreases entries.len(),
        {
            let e = entries.pop().unwrap();
            rest.push(e);
            assert(rest@ =~= all.subrange(entries@.len() as int, n as int).reverse());
        }
        let mut i: usize = 0;
        while rest.len() > 0
            invariant
                i + rest@.len() == n,
                n == all.len(),
                rest@ == all.subrange(i as int, n as int).reverse(),
                kept@ == all.take(i as int).filter(pred),
                pred == other_than::<T>(k),
                k == name@,
            decreases rest.len(),
        {
            let e = rest.pop().unwrap();
            assert(e == all[i as int]);
            assert(all.take(i + 1).drop_last() =~= all.take(i as int));
            proof {
                reveal_with_fuel(Seq::filter, 1);
                let t = all.take(i + 1);
                assert(t.last() == e);
                assert(t.filter(pred) == if pred(t.last()) {
                    t.drop_last().filter(pred).push(t.last())
                } else {
                    t.drop_last().filter(pred)
                });
            }
            let ghost before = kept@;
            if !e.0.same(name) {
                kept.push(e);
                assert(pred(e));
            } else {
                assert(!pred(e));
            }
            assert(kept@ == all.take(i + 1).filter(pred));
            i = i + 1;
            assert(rest@ =~= all.subrange(i as int, n as int).reverse());
        }
        assert(all.take(n as int) =~= all);
        self.entries = kept;
        proof {
            lemma_entries_without(all, k);
        }
        previous
    }
}

} // verus!
