//! What an operation of the store can fail with.

use crate::ids::{ComponentId, EntityId};
use vstd::prelude::*;

verus! {

/// An error of the store.
#[derive(PartialEq, Eq, Hash, Debug)]
pub enum EcsError {
    /// The requested entity doesn't exist.
    EntityNotFound(EntityId),
    /// The requested component doesn't exist.
    ComponentNotFound(ComponentId),
    /// The given entity doesn't have a component of the requested type.
    ComponentTypeNotFound(EntityId),
    /// The requested component doesn't have the expected type.
    ComponentTypeMismatch(ComponentId),
    /// The requested component cannot be borrowed right now.
    BorrowError(ComponentId),
    /// The store has handed out every component number it has.
    IdsExhausted,
    /// The store found its own tables inconsistent.
    InternalError(&'static str, Option<Box<EcsError>>),
}

impl Clone for EcsError {
    fn clone(&self) -> (copy: Self)
        ensures
            copy == *self,
        decreases *self,
    {
        match self {
            EcsError::EntityNotFound(entity) => EcsError::EntityNotFound(*entity),
            EcsError::ComponentNotFound(component) => EcsError::ComponentNotFound(*component),
            EcsError::ComponentTypeNotFound(entity) => EcsError::ComponentTypeNotFound(*entity),
            EcsError::ComponentTypeMismatch(component) => EcsError::ComponentTypeMismatch(
                *component,
            ),
            EcsError::BorrowError(component) => EcsError::BorrowError(*component),
            EcsError::IdsExhausted => EcsError::IdsExhausted,
            EcsError::InternalError(what, cause) => {
                let cause = match cause {
                    Some(inner) => Some(Box::new((**inner).clone())),
                    None => None,
                };
                EcsError::InternalError(*what, cause)
            },
        }
    }
}

} // verus!
