//! The shared allocation engine of one arena.
//!
//! Storage is a chain of segments. Each segment holds at most `capacity`
//! elements; only the last segment (the tail) ever accepts new elements, and
//! a segment that has been superseded by a newer tail is frozen at full
//! capacity forever. Growth appends one fresh segment at a time, so no
//! element is ever moved: the pair (segment, slot) of an element — and hence
//! its position in allocation order — is stable for the life of the engine.

use vstd::arithmetic::div_mod::lemma_fundamental_div_mod;
use vstd::arithmetic::div_mod::lemma_fundamental_div_mod_converse;
use vstd::prelude::*;

use crate::model::allocated;
use crate::model::created;
use crate::model::released;
use crate::model::retained;
use crate::model::ArenaModel;

verus! {

/// One arena's engine: its strong-owner count, its segment capacity, how
/// many elements it holds, and the segment chain itself. Destroying the
/// storage (when the count reaches zero) empties the chain.
pub(crate) struct ArenaInner<T> {
    strong: usize,
    capacity: usize,
    total: usize,
    segments: Vec<Vec<T>>,
}

impl<T> ArenaInner<T> {
    /// The segment chain as a sequence of sequences.
    pub(crate) closed spec fn seg_views(self) -> Seq<Seq<T>> {
        self.segments@.map_values(|s: Vec<T>| s@)
    }

    /// The engine as its mathematical model: the elements are the
    /// concatenation of the segments, in chain order.
    pub(crate) closed spec fn model(self) -> ArenaModel<T> {
        ArenaModel {
            strong: self.strong as nat,
            capacity: self.capacity as nat,
            elems: self.seg_views().flatten(),
        }
    }

    /// Well-formedness: the capacity is positive, the element count matches
    /// the chain, every non-tail segment is frozen at full capacity, the
    /// tail never exceeds it, and destroyed storage holds no segments.
    pub(crate) closed spec fn wf(self) -> bool {
        &&& self.capacity > 0
        &&& self.total == self.seg_views().flatten().len()
        &&& if self.strong > 0 {
            &&& self.segments@.len() > 0
            &&& (forall|k: int|
                0 <= k < self.segments@.len() - 1 ==> (#[trigger] self.seg_views()[k]).len()
                    == self.capacity)
            &&& self.seg_views().last().len() <= self.capacity
        } else {
            self.segments@.len() == 0
        }
    }

    /// A fresh engine: one strong owner, one empty segment.
    pub(crate) fn new(capacity: usize) -> (inner: ArenaInner<T>)
        requires
            capacity > 0,
        ensures
            inner.wf(),
            inner.model() == created::<T>(capacity as nat),
    {
        let mut segments: Vec<Vec<T>> = Vec::new();
        segments.push(Vec::new());
        let inner = ArenaInner { strong: 1, capacity, total: 0, segments };
        proof {
            assert(inner.seg_views() =~= seq![Seq::<T>::empty()]);
            inner.seg_views().lemma_flatten_one_element();
            assert(inner.model() =~~= created::<T>(capacity as nat));
        }
        inner
    }

    /// Append `value`, growing the chain by one segment first when the tail
    /// is full. Returns the address of the new element: its position in
    /// allocation order, stable forever.
    pub(crate) fn allocate(&mut self, value: T) -> (addr: usize)
        requires
            old(self).wf(),
            old(self).model().strong > 0,
            old(self).model().elems.len() < usize::MAX,
        ensures
            final(self).wf(),
            final(self).model() == allocated(old(self).model(), value),
            addr == old(self).model().elems.len(),
    {
        let ghost pre = *self;
        let n: usize = self.segments.len();
        if self.segments[n - 1].len() == self.capacity {
            self.segments.push(Vec::new());
            proof {
                pre.seg_views().lemma_flatten_push(Seq::<T>::empty());
                assert(self.seg_views() =~= pre.seg_views().push(Seq::<T>::empty()));
                assert(self.seg_views().flatten() =~= pre.seg_views().flatten());
            }
        }
        let ghost mid = *self;
        let m: usize = self.segments.len();
        let tail = &mut self.segments[m - 1];
        tail.push(value);
        let addr: usize = self.total;
        self.total = self.total + 1;
        proof {
            assert(self.seg_views() =~= mid.seg_views().update(
                m - 1,
                mid.seg_views().last().push(value),
            ));
            lemma_flatten_push_last(mid.seg_views(), value);
            assert(self.seg_views().flatten() =~= pre.seg_views().flatten().push(value));
            assert(self.model() =~~= allocated(pre.model(), value));
            assert forall|k: int| 0 <= k < self.segments@.len() - 1 implies (
            #[trigger] self.seg_views()[k]).len() == self.capacity by {
                assert(self.seg_views()[k] == mid.seg_views()[k]);
            }
        }
        addr
    }

    /// A shared reference to the element at `addr`, found in segment
    /// `addr / capacity`, slot `addr % capacity`.
    pub(crate) fn value_at(&self, addr: usize) -> (r: &T)
        requires
            self.wf(),
            self.model().strong > 0,
            addr < self.model().elems.len(),
        ensures
            *r == self.model().elems[addr as int],
    {
        proof {
            lemma_flatten_index(self.seg_views(), self.capacity as int, addr as int);
        }
        let seg: usize = addr / self.capacity;
        let slot: usize = addr % self.capacity;
        &self.segments[seg][slot]
    }

    /// The checked read: the element at `addr` if the storage is still
    /// alive and `addr` names an allocated element, and nothing otherwise.
    pub(crate) fn try_value(&self, addr: usize) -> (r: Option<&T>)
        requires
            self.wf(),
        ensures
            r is Some <==> self.model().strong > 0 && addr < self.model().elems.len(),
            r matches Some(v) ==> *v == self.model().elems[addr as int],
    {
        if self.strong > 0 && addr < self.total {
            Some(self.value_at(addr))
        } else {
            None
        }
    }

    /// Whether the storage still has a strong owner.
    pub(crate) fn is_live(&self) -> (live: bool)
        ensures
            live == (self.model().strong > 0),
    {
        self.strong > 0
    }

    /// One more strong owner.
    pub(crate) fn retain(&mut self)
        requires
            old(self).wf(),
            old(self).model().strong > 0,
            old(self).model().strong < usize::MAX,
        ensures
            final(self).wf(),
            final(self).model() == retained(old(self).model()),
    {
        self.strong = self.strong + 1;
        proof {
            assert(self.model() =~~= retained(old(self).model()));
        }
    }

    /// One strong owner fewer. When the last owner goes, the whole chain is
    /// destroyed at once and the storage stays empty forever.
    pub(crate) fn release(&mut self)
        requires
            old(self).wf(),
            old(self).model().strong > 0,
        ensures
            final(self).wf(),
            final(self).model() == released(old(self).model()),
    {
        self.strong = self.strong - 1;
        if self.strong == 0 {
            self.segments = Vec::new();
            self.total = 0;
            proof {
                assert(self.seg_views() =~= Seq::<Seq<T>>::empty());
                assert(self.seg_views().flatten() =~= Seq::<T>::empty());
                assert(self.model() =~~= released(old(self).model()));
            }
        } else {
            proof {
                assert(self.model() =~~= released(old(self).model()));
            }
        }
    }
}

/// Appending to the last of a sequence of sequences appends to the
/// concatenation of them all.
proof fn lemma_flatten_push_last<A>(ss: Seq<Seq<A>>, v: A)
    requires
        ss.len() > 0,
    ensures
        ss.update(ss.len() - 1, ss.last().push(v)).flatten() =~= ss.flatten().push(v),
    decreases ss.len(),
{
    let tt = ss.update(ss.len() - 1, ss.last().push(v));
    if ss.len() == 1 {
        assert(tt =~= seq![ss[0].push(v)]);
        tt.lemma_flatten_one_element();
        ss.lemma_flatten_one_element();
        assert(tt.flatten() =~= ss.flatten().push(v));
    } else {
        lemma_flatten_push_last(ss.drop_first(), v);
        assert(tt.drop_first() =~= ss.drop_first().update(
            ss.drop_first().len() - 1,
            ss.drop_first().last().push(v),
        ));
        assert(tt.first() == ss.first());
        assert(tt.flatten() =~= ss.first() + ss.drop_first().flatten().push(v));
        assert(ss.flatten() =~= ss.first() + ss.drop_first().flatten());
        assert(tt.flatten() =~= ss.flatten().push(v));
    }
}

/// In a chain whose non-tail segments all hold exactly `cap` elements and
/// whose tail holds at most `cap`, position `i` of the concatenation is
/// slot `i % cap` of segment `i / cap`.
proof fn lemma_flatten_index<A>(ss: Seq<Seq<A>>, cap: int, i: int)
    requires
        cap > 0,
        forall|k: int| 0 <= k < ss.len() - 1 ==> (#[trigger] ss[k]).len() == cap,
        ss.len() > 0 ==> ss.last().len() <= cap,
        0 <= i < ss.flatten().len(),
    ensures
        0 <= i / cap < ss.len(),
        0 <= i % cap < ss[i / cap].len(),
        ss.flatten()[i] == ss[i / cap][i % cap],
    decreases ss.len(),
{
    if ss.len() == 0 {
        assert(ss.flatten().len() == 0);
    } else if ss.len() == 1 {
        ss.lemma_flatten_one_element();
        lemma_fundamental_div_mod_converse(i, cap, 0, i);
    } else {
        let rest = ss.drop_first();
        assert(ss[0].len() == cap);
        assert(ss.flatten() == ss.first() + rest.flatten());
        if i < cap {
            lemma_fundamental_div_mod_converse(i, cap, 0, i);
            assert(ss.flatten()[i] == ss[0][i]);
        } else {
            let j: int = i - cap;
            assert forall|k: int| 0 <= k < rest.len() - 1 implies (#[trigger] rest[k]).len()
                == cap by {
                assert(rest[k] == ss[k + 1]);
            }
            assert(rest.last() == ss.last());
            lemma_flatten_index(rest, cap, j);
            let q: int = j / cap;
            let r: int = j % cap;
            lemma_fundamental_div_mod(j, cap);
            assert(rest[q].len() <= cap);
            assert(i == (q + 1) * cap + r) by (nonlinear_arith)
                requires
                    i == j + cap,
                    j == cap * q + r,
            ;
            lemma_fundamental_div_mod_converse(i, cap, q + 1, r);
            assert(ss.flatten()[i] == rest.flatten()[j]);
            assert(ss[i / cap] == rest[q]);
        }
    }
}

} // verus!
