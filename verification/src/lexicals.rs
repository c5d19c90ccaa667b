//! Lexical scopes: frames of bindings, each inside the one before it.
use crate::heap::{Heap, Gc};
use crate::bindings::Bindings;
use crate::name::{Symbol, SymbolView};
use vstd::prelude::*;
use vstd::set_lib::{lemma_int_range, lemma_len_subset, set_int_range};

verus! {

/// A frame of lexical bindings, and the frame it is nested in, if any.
#[derive(Clone, Debug, Hash)]
pub struct Lexical<T> {
    items: Bindings<T>,
    prev: Option<Gc<Lexical<T>>>,
}

/// The mathematical model of a [`Lexical`] frame: its bindings, and the
/// position of the frame it is nested in.
pub struct LexicalView {
    pub items: Map<SymbolView, usize>,
    pub prev: Option<usize>,
}

impl<T> View for Lexical<T> {
    type V = LexicalView;

    closed spec fn view(&self) -> LexicalView {
        LexicalView {
            items: self.items@,
            prev: match self.prev {
                Some(g) => Some(g.index),
                None => None,
            },
        }
    }
}

/// The frames of a heap of lexical frames.
pub open spec fn frames_view<T>(frames: Seq<Lexical<T>>) -> Seq<LexicalView> {
    Seq::new(frames.len(), |i: int| frames[i]@)
}

/// Looks `name` up along the chain of frames starting at `at`, visiting at
/// most `steps` frames.
pub open spec fn chain_lookup(
    frames: Seq<LexicalView>,
    at: Option<usize>,
    name: SymbolView,
    steps: nat,
) -> Option<usize>
    decreases steps,
{
    match at {
        None => None,
        Some(i) => if steps == 0 || i >= frames.len() {
            None
        } else if frames[i as int].items.dom().contains(name) {
            Some(frames[i as int].items[name])
        } else {
            chain_lookup(frames, frames[i as int].prev, name, (steps - 1) as nat)
        },
    }
}

/// The value of `name` in a frame: its own binding, or else the first
/// binding along the chain of frames it is nested in.
pub open spec fn lexical_lookup(frames: Seq<LexicalView>, lex: LexicalView, name: SymbolView) -> Option<
    usize,
> {
    if lex.items.dom().contains(name) {
        Some(lex.items[name])
    } else {
        chain_lookup(frames, lex.prev, name, frames.len())
    }
}

impl<T> Default for Lexical<T> {
    fn default() -> (r: Self)
        ensures
            r@ == (LexicalView { items: Map::empty(), prev: None }),
    {
        Self::new()
    }
}

impl<T> Lexical<T> {
    pub fn new() -> (r: Self)
        ensures
            r@ == (LexicalView { items: Map::empty(), prev: None }),
    {
        Lexical { items: Bindings::new(), prev: None }
    }

    /// Adds a new frame to the lexical scope.
    pub fn nest(inside: Gc<Self>) -> (r: Self)
        ensures
            r@ == (LexicalView { items: Map::empty(), prev: Some(inside.index) }),
    {
        Lexical { items: Bindings::new(), prev: Some(inside) }
    }

    /// Drops the last frame in the lexical scope, if there is one.
    pub fn unnest(&self) -> (r: Option<Gc<Lexical<T>>>)
        ensures
            match r {
                Some(g) => self@.prev == Some(g.index),
                None => self@.prev is None,
            },
    {
        self.prev
    }

    /// Binds `name` in this frame, giving back what it was bound to here.
    pub fn assign(&mut self, name: Symbol, value: Gc<T>) -> (r: Option<Gc<T>>)
        ensures
            final(self)@ == (LexicalView {
                items: old(self)@.items.insert(name@, value.index),
                prev: old(self)@.prev,
            }),
            match r {
                Some(g) => old(self)@.items.dom().contains(name@) && old(self)@.items[name@]
                    == g.index,
                None => !old(self)@.items.dom().contains(name@),
            },
    {
        self.items.insert(name, value)
    }

    /// Unbinds `name` in this frame, giving back what it was bound to here.
    pub fn unassign(&mut self, name: &Symbol) -> (r: Option<Gc<T>>)
        ensures
            final(self)@ == (LexicalView {
                items: old(self)@.items.remove(name@),
                prev: old(self)@.prev,
            }),
            match r {
                Some(g) => old(self)@.items.dom().contains(name@) && old(self)@.items[name@]
                    == g.index,
                None => !old(self)@.items.dom().contains(name@),
            },
    {
        self.items.remove(name)
    }

    /// The value of `name`: this frame's binding, or else the first one
    /// along the frames this one is nested in, which `frames` holds.
    pub fn lookup(&self, frames: &Heap<Lexical<T>>, name: &Symbol) -> (r: Option<Gc<T>>)
        ensures
            match r {
                Some(g) => lexical_lookup(frames_view(frames@), self@, name@) == Some(g.index),
                None => lexical_lookup(frames_view(frames@), self@, name@) is None,
            },
    {
        let ghost fs = frames_view(frames@);
        match self.items.get(name) {
            Some(val) => Some(val),
            None => {  // We will do a little loop so we don't have to recurse
                let mut next = self.prev;
                let mut steps = frames.len();
                loop
                    invariant
                        fs == frames_view(frames@),
                        steps <= frames@.len(),
                        lexical_lookup(fs, self@, name@) == chain_lookup(
                            fs,
                            match next {
                                Some(g) => Some(g.index),
                                None => None,
                            },
                            name@,
                            steps as nat,
                        ),
                    decreases steps,
                {
                    match next {
                        None => {
                            return None;
                        },
                        Some(g) => {
                            if steps == 0 {
                                return None;
                            }
                            match frames.get(g) {
                                None => {
                                    return None;
                                },
                                Some(frame) => {
                                    assert(fs[g.index as int] == frame@);
                                    match frame.items.get(name) {
                                        Some(val) => {
                                            return Some(val);
                                        },
                                        None => {
                                            next = frame.prev;
                                            steps = steps - 1;
                                        },
                                    }
                                },
                            }
                        },
                    }
                }
            },
        }
    }
}

/// The frame after `at` along a chain: the one `at` is nested in.
pub open spec fn chain_next(frames: Seq<LexicalView>, at: Option<usize>) -> Option<usize> {
    match at {
        Some(i) => if i < frames.len() {
            frames[i as int].prev
        } else {
            None
        },
        None => None,
    }
}

/// The frame `k` steps along the chain from `at`.
pub open spec fn chain_walk(frames: Seq<LexicalView>, at: Option<usize>, k: nat) -> Option<usize>
    decreases k,
{
    if k == 0 {
        at
    } else {
        chain_next(frames, chain_walk(frames, at, (k - 1) as nat))
    }
}

/// Whether `at` is a frame of `frames`.
pub open spec fn in_frames(frames: Seq<LexicalView>, at: Option<usize>) -> bool {
    match at {
        Some(i) => i < frames.len(),
        None => false,
    }
}

/// Whether `at` is a frame of `frames` that binds `name`.
pub open spec fn binds_at(frames: Seq<LexicalView>, at: Option<usize>, name: SymbolView) -> bool {
    match at {
        Some(i) => i < frames.len() && frames[i as int].items.dom().contains(name),
        None => false,
    }
}

proof fn lemma_walk_shift(frames: Seq<LexicalView>, i: usize, k: nat)
    requires
        i < frames.len(),
    ensures
        chain_walk(frames, frames[i as int].prev, k) == chain_walk(frames, Some(i), k + 1),
    decreases k,
{
    assert(chain_walk(frames, Some(i), 0) == Some(i));
    if k > 0 {
        lemma_walk_shift(frames, i, (k - 1) as nat);
        assert(chain_walk(frames, frames[i as int].prev, k) == chain_next(
            frames,
            chain_walk(frames, frames[i as int].prev, (k - 1) as nat),
        ));
        assert(chain_walk(frames, Some(i), k + 1) == chain_next(
            frames,
            chain_walk(frames, Some(i), k),
        ));
    } else {
        assert(chain_walk(frames, Some(i), 1) == chain_next(frames, chain_walk(frames, Some(i), 0)));
    }
}

proof fn lemma_walk_periodic(frames: Seq<LexicalView>, at: Option<usize>, i: nat, j: nat, m: nat)
    requires
        chain_walk(frames, at, i) == chain_walk(frames, at, j),
    ensures
        chain_walk(frames, at, i + m) == chain_walk(frames, at, j + m),
    decreases m,
{
    if m > 0 {
        lemma_walk_periodic(frames, at, i, j, (m - 1) as nat);
        assert(chain_walk(frames, at, i + m) == chain_next(
            frames,
            chain_walk(frames, at, (i + m - 1) as nat),
        ));
        assert(chain_walk(frames, at, j + m) == chain_next(
            frames,
            chain_walk(frames, at, (j + m - 1) as nat),
        ));
    }
}

/// One more step changes a lookup only when the chain so far stays inside
/// the frames, binds nothing before its last frame, and binds at its last.
proof fn lemma_step_changes(frames: Seq<LexicalView>, at: Option<usize>, name: SymbolView, s: nat)
    requires
        chain_lookup(frames, at, name, s + 1) != chain_lookup(frames, at, name, s),
    ensures
        forall|k: nat| k <= s ==> in_frames(frames, #[trigger] chain_walk(frames, at, k)),
        forall|k: nat| k < s ==> !binds_at(frames, #[trigger] chain_walk(frames, at, k), name),
        binds_at(frames, chain_walk(frames, at, s), name),
    decreases s,
{
    let i = at->0;
    assert(chain_walk(frames, at, 0) == at);
    if i < frames.len() {
        assert(chain_lookup(frames, frames[i as int].prev, name, 0) is None);
    }
    if s > 0 && !frames[i as int].items.dom().contains(name) {
        assert(at == Some(i) && i < frames.len());
        let p = frames[i as int].prev;
        lemma_step_changes(frames, p, name, (s - 1) as nat);
        assert forall|k: nat| k <= s implies in_frames(frames, #[trigger] chain_walk(frames, at, k)) by {
            if k > 0 {
                lemma_walk_shift(frames, i, (k - 1) as nat);
            }
        }
        assert forall|k: nat| k < s implies !binds_at(frames, #[trigger] chain_walk(frames, at, k), name) by {
            if k > 0 {
                lemma_walk_shift(frames, i, (k - 1) as nat);
            }
        }
        lemma_walk_shift(frames, i, (s - 1) as nat);
        assert(chain_walk(frames, p, (s - 1) as nat) == chain_walk(frames, at, s));
    }
}

/// Distinct positions below `n` number at most `n`.
proof fn lemma_distinct_below(s: Seq<int>, n: int)
    requires
        0 <= n,
        s.no_duplicates(),
        forall|i: int| 0 <= i < s.len() ==> 0 <= #[trigger] s[i] < n,
    ensures
        s.len() <= n,
{
    s.unique_seq_to_set();
    lemma_int_range(0, n);
    assert(s.to_set().subset_of(set_int_range(0, n)));
    lemma_len_subset(s.to_set(), set_int_range(0, n));
}

/// A lookup that changes with one more step has visited that many
/// distinct frames.
proof fn lemma_step_changes_distinct(
    frames: Seq<LexicalView>,
    at: Option<usize>,
    name: SymbolView,
    s: nat,
    a: nat,
    b: nat,
)
    requires
        chain_lookup(frames, at, name, s + 1) != chain_lookup(frames, at, name, s),
        a < b <= s,
    ensures
        chain_walk(frames, at, a) != chain_walk(frames, at, b),
{
    lemma_step_changes(frames, at, name, s);
    if chain_walk(frames, at, a) == chain_walk(frames, at, b) {
        lemma_walk_periodic(frames, at, a, b, (s - b) as nat);
        let k = (a + (s - b)) as nat;
        assert(k < s);
        assert(!binds_at(frames, chain_walk(frames, at, k), name));
    }
}

/// Past as many steps as there are frames, more steps find nothing new.
pub proof fn lemma_chain_enough_steps(frames: Seq<LexicalView>, at: Option<usize>, name: SymbolView, s: nat)
    requires
        frames.len() <= s,
    ensures
        chain_lookup(frames, at, name, s) == chain_lookup(frames, at, name, frames.len()),
    decreases s,
{
    if s > frames.len() {
        let t = (s - 1) as nat;
        lemma_chain_enough_steps(frames, at, name, t);
        if chain_lookup(frames, at, name, s) != chain_lookup(frames, at, name, t) {
            lemma_step_changes(frames, at, name, t);
            let nodes = Seq::new(s, |k: int| chain_walk(frames, at, k as nat)->0 as int);
            assert forall|x: int, y: int|
                0 <= x < nodes.len() && 0 <= y < nodes.len() && x != y implies nodes[x]
                != nodes[y] by {
                let (a, b) = if x < y { (x as nat, y as nat) } else { (y as nat, x as nat) };
                lemma_step_changes_distinct(frames, at, name, t, a, b);
                assert(chain_walk(frames, at, x as nat) matches Some(_));
                assert(chain_walk(frames, at, y as nat) matches Some(_));
            }
            assert forall|i: int| 0 <= i < nodes.len() implies 0 <= #[trigger] nodes[i] < frames.len() by {
                assert(chain_walk(frames, at, i as nat) matches Some(_));
            }
            lemma_distinct_below(nodes, frames.len() as int);
        }
    }
}

/// Nesting a frame inside frame `g` changes no lookup: everything bound
/// around `g` is seen from inside it, until the new frame binds it.
pub proof fn law_nest_sees_outer(frames: Seq<LexicalView>, g: usize, name: SymbolView)
    requires
        g < frames.len(),
    ensures
        lexical_lookup(frames, LexicalView { items: Map::empty(), prev: Some(g) }, name)
            == lexical_lookup(frames, frames[g as int], name),
{
    let outer = frames[g as int];
    let n = frames.len();
    if !outer.items.dom().contains(name) {
        let p = outer.prev;
        let t = (n - 1) as nat;
        if chain_lookup(frames, p, name, n) != chain_lookup(frames, p, name, t) {
            lemma_step_changes(frames, p, name, t);
            let nodes = Seq::new(n + 1, |k: int|
                if k == 0 { g as int } else { chain_walk(frames, p, (k - 1) as nat)->0 as int });
            assert forall|x: int, y: int|
                0 <= x < nodes.len() && 0 <= y < nodes.len() && x != y implies nodes[x]
                != nodes[y] by {
                let (a, b) = if x < y { (x, y) } else { (y, x) };
                assert(chain_walk(frames, p, (b - 1) as nat) matches Some(_));
                if a == 0 {
                    if chain_walk(frames, p, (b - 1) as nat) == Some(g) {
                        if b - 1 < t {
                            assert(chain_walk(frames, p, b as nat) == p);
                            lemma_step_changes_distinct(frames, p, name, t, 0, b as nat);
                        } else {
                            assert(binds_at(frames, chain_walk(frames, p, t), name));
                        }
                    }
                } else {
                    assert(chain_walk(frames, p, (a - 1) as nat) matches Some(_));
                    lemma_step_changes_distinct(frames, p, name, t, (a - 1) as nat, (b - 1) as nat);
                }
            }
            assert forall|i: int| 0 <= i < nodes.len() implies 0 <= #[trigger] nodes[i] < n by {
                if i > 0 {
                    assert(chain_walk(frames, p, (i - 1) as nat) matches Some(_));
                }
            }
            lemma_distinct_below(nodes, n as int);
        }
    }
}

/// A name assigned in a frame is found there, whatever the frames around it bind.
pub proof fn law_assign_then_lookup(frames: Seq<LexicalView>, lex: LexicalView, name: SymbolView, value: usize)
    ensures
        lexical_lookup(
            frames,
            LexicalView { items: lex.items.insert(name, value), prev: lex.prev },
            name,
        ) == Some(value),
{
}

} // verus!
