//! An entity/component store.
//!
//! Entities are identities. Components are typed values attached to them, at
//! most one of each type per entity. The store hands out identifiers that it
//! never uses twice, keeps each value in a cell that checks borrows when the
//! program runs, lists the components of a type, and takes in other stores.
//!
//! - [`store`]: the store and its operations.
//! - [`view`]: what a store is in the proofs, and what holds of it.
//! - [`ids`]: identifiers of stores, entities and components, and the
//!   allocator of store identifiers.
//! - [`guards`]: shared and exclusive borrows of a component's value.
//! - [`handle`]: a component's identifier together with its type.
//! - [`query`]: walks over the components of one type.
//! - [`error`]: what an operation can fail with.
//! - [`erased`]: the boundary to `std::any` and `std::cell`.

pub mod erased;
pub mod error;
pub mod guards;
pub mod handle;
pub mod ids;
pub mod query;
mod slots;
pub mod store;
mod tables;
pub mod view;

pub use crate::error::EcsError;
pub use crate::guards::{Ref, RefMut};
pub use crate::handle::ComponentRef;
pub use crate::ids::{ComponentId, EcsId, EntityId, IdAllocator};
pub use crate::query::{Iter, IterMut};
pub use crate::store::{Component, ComponentEntry, Ecs};
pub use crate::view::{ComponentInfo, EcsView};
