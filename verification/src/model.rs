//! The mathematical model of an arena store.
//!
//! An [`ArenaStore`](crate::ArenaStore) is viewed as a sequence of
//! [`ArenaModel`]s, one per arena ever created in it, in creation order.
//! Every operation of the store is specified as a pure transition on this
//! sequence, so the whole handle/reference protocol can be stated and proved
//! over plain mathematical values.

use vstd::prelude::*;

verus! {

/// The model of one arena: how many strong handles own it, the segment
/// capacity it was created with, and the elements allocated into it, in
/// allocation order. A destroyed arena has `strong == 0` and no elements.
#[verifier::ext_equal]
pub ghost struct ArenaModel<T> {
    pub strong: nat,
    pub capacity: nat,
    pub elems: Seq<T>,
}

/// The model of an [`ArenaRef`](crate::ArenaRef): the identity of the arena
/// it points into and the address of its element. Addresses are positions in
/// allocation order; they are never reused and never change meaning.
#[verifier::ext_equal]
pub ghost struct RefModel {
    pub arena: int,
    pub addr: int,
}

/// The transition made by a fresh arena of capacity `capacity`: one strong
/// owner, no elements yet.
pub open spec fn created<T>(capacity: nat) -> ArenaModel<T> {
    ArenaModel { strong: 1, capacity: capacity, elems: Seq::empty() }
}

/// The transition made by an allocation: the value is appended, everything
/// else is untouched. In particular the value at every existing address is
/// exactly what it was before.
pub open spec fn allocated<T>(m: ArenaModel<T>, value: T) -> ArenaModel<T> {
    ArenaModel { strong: m.strong, capacity: m.capacity, elems: m.elems.push(value) }
}

/// The transition made by cloning a handle (or by a successful
/// `get_arena`): one more strong owner, contents untouched.
pub open spec fn retained<T>(m: ArenaModel<T>) -> ArenaModel<T> {
    ArenaModel { strong: m.strong + 1, capacity: m.capacity, elems: m.elems }
}

/// The transition made by dropping a handle: one strong owner fewer, and
/// when the last one goes, the storage is destroyed — every element at once,
/// permanently.
pub open spec fn released<T>(m: ArenaModel<T>) -> ArenaModel<T> {
    if m.strong <= 1 {
        ArenaModel { strong: 0, capacity: m.capacity, elems: Seq::empty() }
    } else {
        ArenaModel { strong: (m.strong - 1) as nat, capacity: m.capacity, elems: m.elems }
    }
}

/// Whether a reference with model `r` resolves to a value in store model
/// `arenas`: its arena must still have a strong owner and its address must
/// name an allocated element. This is exactly the condition under which
/// `try_get` answers with the value.
pub open spec fn ref_present<T>(arenas: Seq<ArenaModel<T>>, r: RefModel) -> bool {
    &&& 0 <= r.arena < arenas.len()
    &&& arenas[r.arena].strong > 0
    &&& 0 <= r.addr < arenas[r.arena].elems.len()
}

} // verus!
