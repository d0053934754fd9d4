//! A typed, append-only memory arena with shared handles and weak references.
//!
//! An arena hands out stable addresses for the values moved into it: growth
//! appends a fresh fixed-capacity segment to a chain and never relocates
//! existing elements. Arena handles share ownership of the storage through a
//! strong-owner count; references ([`ArenaRef`]) never keep the storage alive
//! and can always ask whether it still is.
//!
//! All storage and all owner counts live in an explicit [`ArenaStore`], so
//! that every step of the protocol — allocation, handle cloning, the final
//! drop that destroys the storage, and the liveness checks made by
//! references — is ordinary verified code over plain data.

mod inner;

pub mod arena;
pub mod laws;
pub mod model;

pub use arena::Arena;
pub use arena::DEFAULT_CAPACITY;
pub use arena::ArenaRef;
pub use arena::ArenaStore;
pub use model::ArenaModel;
pub use model::RefModel;
