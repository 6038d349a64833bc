//! Handles: a component's identifier together with the type of its value.

use crate::erased::type_tag;
use crate::error::EcsError;
use crate::guards::{copied_from, Ref, RefMut};
use crate::ids::{ComponentId, EntityId};
use crate::store::{Component, Ecs};
use std::marker::PhantomData;
use vstd::prelude::*;

verus! {

/// A convenient way to store a `ComponentId` with type information.
///
/// A handle is no reference: it is resolved against a store at each use, and
/// fails there if its component is gone.
#[derive(PartialEq, Eq, Hash, Debug)]
pub struct ComponentRef<T: Component> {
    id: ComponentId,
    p: PhantomData<T>,
}

impl<T: Component> ComponentRef<T> {
    /// The component that the handle names.
    pub closed spec fn id(self) -> ComponentId {
        self.id
    }

    /// The handle that names the given component.
    pub closed spec fn to(id: ComponentId) -> Self {
        ComponentRef { id, p: PhantomData }
    }

    /// A handle to the given component.
    pub fn new(id: ComponentId) -> (handle: Self)
        ensures
            handle == Self::to(id),
            handle.id() == id,
    {
        ComponentRef { id, p: PhantomData }
    }

    /// A handle to the component of type `T` on the given entity.
    pub fn from_entity(id: EntityId, ecs: &Ecs) -> (made: Result<Self, EcsError>)
        ensures
            match ecs@.lookup(id, type_tag::<T>()) {
                Ok(component) => made matches Ok(handle) && handle.id() == component,
                Err(error) => made == Err::<Self, EcsError>(error),
            },
    {
        match ecs.lookup_component::<T>(id) {
            Ok(component) => Ok(Self::new(component)),
            Err(error) => Err(error),
        }
    }

    /// Borrows the component's value shared.
    pub fn borrow<'a>(&self, ecs: &'a Ecs) -> (guard: Result<Ref<'a, T>, EcsError>)
        ensures
            ecs@.access_outcome(self.id(), type_tag::<T>(), guard),
            guard matches Ok(typed) ==> typed.cell() == ecs.cell_of(self.id()),
    {
        ecs.borrow_by_id(self.id)
    }

    /// Borrows the component's value exclusively.
    pub fn borrow_mut<'a>(&self, ecs: &'a Ecs) -> (guard: Result<RefMut<'a, T>, EcsError>)
        ensures
            ecs@.access_outcome(self.id(), type_tag::<T>(), guard),
            guard matches Ok(typed) ==> typed.cell() == ecs.cell_of(self.id()),
    {
        ecs.borrow_mut_by_id(self.id)
    }
}

impl<T: Component> Clone for ComponentRef<T> {
    fn clone(&self) -> (copy: Self)
        ensures
            copy.id() == self.id(),
    {
        ComponentRef { id: self.id, p: PhantomData }
    }
}

impl<T: Component> Copy for ComponentRef<T> {

}

impl<T: Component> From<ComponentId> for ComponentRef<T> {
    fn from(other: ComponentId) -> (handle: ComponentRef<T>) {
        ComponentRef::new(other)
    }
}

impl<T: Component> vstd::std_specs::convert::FromSpecImpl<ComponentId> for ComponentRef<T> {
    open spec fn obeys_from_spec() -> bool {
        true
    }

    open spec fn from_spec(other: ComponentId) -> ComponentRef<T> {
        ComponentRef::to(other)
    }
}

impl<T: Component + Clone> ComponentRef<T> {
    /// A copy of the component's value.
    pub fn get(&self, ecs: &Ecs) -> (copy: Result<T, EcsError>)
        ensures
            ecs@.access_outcome(self.id(), type_tag::<T>(), copy),
            copy matches Ok(value) ==> copied_from(ecs.cell_of(self.id()), value),
    {
        ecs.get_by_id(self.id)
    }
}

} // verus!
