//! The laws of the arena protocol, stated and proved over the model.
//!
//! Each law quantifies over every store state the operations can produce;
//! the operations' own contracts say which transition they make, and these
//! lemmas say what the transitions guarantee in combination.

use vstd::prelude::*;

use crate::model::allocated;
use crate::model::ref_present;
use crate::model::released;
use crate::model::retained;
use crate::model::ArenaModel;
use crate::model::RefModel;

verus! {

/// Pointer stability: an allocation — into any arena of the store — leaves
/// every reference that resolved to a value resolving to that same value,
/// at that same address, including allocations that grow the storage.
pub proof fn lemma_pointer_stability<T>(
    arenas: Seq<ArenaModel<T>>,
    id: int,
    value: T,
    r: RefModel,
)
    requires
        0 <= id < arenas.len(),
        ref_present(arenas, r),
    ensures
        ref_present(arenas.update(id, allocated(arenas[id], value)), r),
        arenas.update(id, allocated(arenas[id], value))[r.arena].elems[r.addr]
            == arenas[r.arena].elems[r.addr],
{
}

/// Capacity-triggered growth: allocating into an arena that already holds
/// exactly as many elements as its segment capacity still appends the value
/// and corrupts none of the earlier elements.
pub proof fn lemma_capacity_growth<T>(m: ArenaModel<T>, value: T)
    requires
        m.elems.len() == m.capacity,
    ensures
        allocated(m, value).elems.len() == m.capacity + 1,
        forall|i: int| 0 <= i < m.capacity ==> allocated(m, value).elems[i] == m.elems[i],
        allocated(m, value).elems[m.capacity as int] == value,
{
}

/// Liveness transition: dropping the last strong owner of an arena takes
/// every reference into it from present to absent, all at the same instant,
/// while references into every other arena are untouched.
pub proof fn lemma_liveness_transition<T>(arenas: Seq<ArenaModel<T>>, id: int, r: RefModel)
    requires
        0 <= id < arenas.len(),
        arenas[id].strong == 1,
        ref_present(arenas, r),
    ensures
        r.arena == id ==> !ref_present(arenas.update(id, released(arenas[id])), r),
        r.arena != id ==> ref_present(arenas.update(id, released(arenas[id])), r),
{
}

/// No premature destruction: dropping a handle that is not the last strong
/// owner destroys nothing — the arena stays alive with its elements intact.
pub proof fn lemma_no_premature_destruction<T>(m: ArenaModel<T>)
    requires
        m.strong >= 2,
    ensures
        released(m).strong == m.strong - 1,
        released(m).strong > 0,
        released(m).elems == m.elems,
{
}

/// Shared handle semantics: cloning a handle and then dropping the original
/// leaves the arena exactly as owned as before — alive, with its elements
/// intact. Only dropping every handle destroys the storage.
pub proof fn lemma_clone_keeps_alive<T>(m: ArenaModel<T>)
    requires
        m.strong >= 1,
    ensures
        released(retained(m)).strong == m.strong,
        released(retained(m)).strong > 0,
        released(retained(m)).elems == m.elems,
{
}

/// A destroyed arena stays destroyed: once its strong count is zero no
/// reference into it is present, and no transition makes the count positive
/// again — allocation, cloning and recovery all demand a live arena, and a
/// release leaves a dead arena dead and empty.
pub proof fn lemma_dead_stays_dead<T>(arenas: Seq<ArenaModel<T>>, id: int, r: RefModel)
    requires
        0 <= id < arenas.len(),
        arenas[id].strong == 0,
        r.arena == id,
    ensures
        !ref_present(arenas, r),
        released(arenas[id]).strong == 0,
        released(arenas[id]).elems == Seq::<T>::empty(),
{
}

/// Identity: a newly created arena's identity — the length of the store at
/// creation — differs from the identity of every arena already there, while
/// a cloned handle carries exactly the identity of the original.
pub proof fn lemma_fresh_arena_distinct<T>(arenas: Seq<ArenaModel<T>>, j: int)
    requires
        0 <= j < arenas.len(),
    ensures
        arenas.len() != j,
{
}

} // verus!
