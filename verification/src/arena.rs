//! Arena handles, element references, and the store that owns the storage.
//!
//! The store plays the part of the process heap: it owns every arena's
//! segments and strong-owner count, so handles and references are plain
//! identifiers and the whole ownership protocol is verified code. A handle
//! cannot be duplicated except through [`Arena::clone_handle`] and is
//! consumed by [`Arena::drop_handle`], so the strong count tracks the live
//! handles exactly as long as callers drop handles only through the store.

use vstd::prelude::*;

use crate::inner::ArenaInner;
use crate::model::allocated;
use crate::model::created;
use crate::model::ref_present;
use crate::model::released;
use crate::model::retained;
use crate::model::ArenaModel;
use crate::model::RefModel;

verus! {

/// The segment capacity to use when the caller has no reason to choose one.
pub const DEFAULT_CAPACITY: usize = 64;

/// Owns the storage and the owner count of every arena created in it.
/// Arenas are never removed: a destroyed arena keeps its identity, with a
/// zero owner count and no elements, so references can still ask about it.
pub struct ArenaStore<T> {
    arenas: Vec<ArenaInner<T>>,
}

/// A shared handle to one arena in a store. Handles compare equal exactly
/// when they name the same arena, whatever the contents. A handle is a
/// strong owner: the arena's storage lives until the last handle is passed
/// to [`Arena::drop_handle`].
#[derive(Debug, PartialEq, Eq, Structural)]
pub struct Arena {
    id: usize,
}

/// A weak reference to one element of one arena. It never keeps the arena
/// alive; it can always ask whether the arena still is, and it refuses all
/// access once the answer is no.
#[derive(Debug, Clone, Copy)]
pub struct ArenaRef {
    arena: usize,
    addr: usize,
}

impl<T> View for ArenaStore<T> {
    type V = Seq<ArenaModel<T>>;

    closed spec fn view(&self) -> Seq<ArenaModel<T>> {
        self.arenas@.map_values(|a: ArenaInner<T>| a.model())
    }
}

impl View for Arena {
    type V = int;

    closed spec fn view(&self) -> int {
        self.id as int
    }
}

impl View for ArenaRef {
    type V = RefModel;

    closed spec fn view(&self) -> RefModel {
        RefModel { arena: self.arena as int, addr: self.addr as int }
    }
}

impl<T> ArenaStore<T> {
    /// Every arena of the store is internally well formed. Established by
    /// [`ArenaStore::new`] and preserved by every operation.
    pub closed spec fn wf(self) -> bool {
        forall|i: int| 0 <= i < self.arenas@.len() ==> (#[trigger] self.arenas@[i]).wf()
    }

    /// Whether arena `id` exists in the store and still has a strong owner.
    pub open spec fn live(self, id: int) -> bool {
        0 <= id < self@.len() && self@[id].strong > 0
    }

    /// An empty store: no arenas yet.
    pub fn new() -> (store: ArenaStore<T>)
        ensures
            store.wf(),
            store@ == Seq::<ArenaModel<T>>::empty(),
    {
        let store = ArenaStore { arenas: Vec::new() };
        proof {
            assert(store@ =~= Seq::<ArenaModel<T>>::empty());
        }
        store
    }
}

impl Arena {
    /// Create a new arena of segment capacity `capacity` in `store` and
    /// return its first handle. The new arena has one strong owner, no
    /// elements, and an identity distinct from every arena already there.
    pub fn new<T>(store: &mut ArenaStore<T>, capacity: usize) -> (handle: Arena)
        requires
            old(store).wf(),
            capacity > 0,
        ensures
            final(store).wf(),
            handle@ == old(store)@.len(),
            final(store)@ == old(store)@.push(created::<T>(capacity as nat)),
    {
        let id: usize = store.arenas.len();
        store.arenas.push(ArenaInner::new(capacity));
        proof {
            assert(store@ =~= old(store)@.push(created::<T>(capacity as nat)));
        }
        Arena { id }
    }

    /// Move `value` into this handle's arena and return a reference to its
    /// new address: the next position in allocation order. No earlier
    /// element is moved or changed, ever.
    pub fn allocate<T>(&self, store: &mut ArenaStore<T>, value: T) -> (r: ArenaRef)
        requires
            old(store).wf(),
            old(store).live(self@),
            old(store)@[self@].elems.len() < usize::MAX,
        ensures
            final(store).wf(),
            final(store)@ == old(store)@.update(self@, allocated(old(store)@[self@], value)),
            r@.arena == self@,
            r@.addr == old(store)@[self@].elems.len(),
            ref_present(final(store)@, r@),
    {
        let inner = &mut store.arenas[self.id];
        let addr: usize = inner.allocate(value);
        proof {
            assert(store@ =~= old(store)@.update(
                self@,
                allocated(old(store)@[self@], value),
            ));
        }
        ArenaRef { arena: self.id, addr }
    }

    /// Clone this handle: the arena gains one strong owner and both handles
    /// name the same storage.
    pub fn clone_handle<T>(&self, store: &mut ArenaStore<T>) -> (handle: Arena)
        requires
            old(store).wf(),
            old(store).live(self@),
            old(store)@[self@].strong < usize::MAX,
        ensures
            final(store).wf(),
            handle@ == self@,
            final(store)@ == old(store)@.update(self@, retained(old(store)@[self@])),
    {
        let inner = &mut store.arenas[self.id];
        inner.retain();
        proof {
            assert(store@ =~= old(store)@.update(self@, retained(old(store)@[self@])));
        }
        Arena { id: self.id }
    }

    /// Drop this handle, consuming it. While other handles remain, nothing
    /// else changes; when this was the last one, the arena's storage is
    /// destroyed — every element at once, permanently.
    pub fn drop_handle<T>(self, store: &mut ArenaStore<T>)
        requires
            old(store).wf(),
            old(store).live(self@),
        ensures
            final(store).wf(),
            final(store)@ == old(store)@.update(self@, released(old(store)@[self@])),
    {
        let inner = &mut store.arenas[self.id];
        inner.release();
        proof {
            assert(store@ =~= old(store)@.update(self@, released(old(store)@[self@])));
        }
    }
}

impl ArenaRef {
    /// The checked read: the referenced element, exactly while the arena
    /// still has a strong owner and the address names an allocated element;
    /// nothing once it does not.
    pub fn try_get<'a, T>(&self, store: &'a ArenaStore<T>) -> (r: Option<&'a T>)
        requires
            store.wf(),
        ensures
            r is Some <==> ref_present(store@, self@),
            r matches Some(v) ==> *v == store@[self@.arena].elems[self@.addr],
    {
        if self.arena < store.arenas.len() {
            store.arenas[self.arena].try_value(self.addr)
        } else {
            None
        }
    }

    /// The unchecked read: the referenced element, for callers who can show
    /// the arena is still alive.
    pub fn get<'a, T>(&self, store: &'a ArenaStore<T>) -> (r: &'a T)
        requires
            store.wf(),
            ref_present(store@, self@),
        ensures
            *r == store@[self@.arena].elems[self@.addr],
    {
        store.arenas[self.arena].value_at(self.addr)
    }

    /// Recover a strong handle from this reference: succeeds exactly while
    /// the arena is alive, making the caller one more strong owner. A dead
    /// arena is never resurrected.
    pub fn get_arena<T>(&self, store: &mut ArenaStore<T>) -> (r: Option<Arena>)
        requires
            old(store).wf(),
            old(store).live(self@.arena) ==> old(store)@[self@.arena].strong < usize::MAX,
        ensures
            final(store).wf(),
            r is Some <==> old(store).live(self@.arena),
            r matches Some(h) ==> h@ == self@.arena,
            old(store).live(self@.arena) ==> final(store)@ == old(store)@.update(
                self@.arena,
                retained(old(store)@[self@.arena]),
            ),
            !old(store).live(self@.arena) ==> final(store)@ == old(store)@,
    {
        if self.arena < store.arenas.len() {
            let inner = &mut store.arenas[self.arena];
            if inner.is_live() {
                inner.retain();
                proof {
                    assert(store@ =~= old(store)@.update(
                        self@.arena,
                        retained(old(store)@[self@.arena]),
                    ));
                }
                Some(Arena { id: self.arena })
            } else {
                proof {
                    assert(store@ =~= old(store)@);
                }
                None
            }
        } else {
            None
        }
    }

    /// Whether two references name the same slot of the same arena — the
    /// arena's identity, alive or dead, never its contents.
    pub fn ptr_eq(&self, other: &ArenaRef) -> (eq: bool)
        ensures
            eq == (self@ == other@),
    {
        let eq = self.arena == other.arena && self.addr == other.addr;
        proof {
            if eq {
                assert(self@ =~= other@);
            }
        }
        eq
    }
}

} // verus!
