//! Guards: what a granted borrow of a component's value is held by.
//!
//! A guard keeps the cell's borrow alive for as long as it lives and gives
//! the value back at its type. Dropping the guard ends the borrow.

use crate::erased::{
    exclusive_cell, exclusive_downcast, exclusive_downcast_mut, exclusive_tag, exclusive_value,
    shared_cell, shared_downcast, shared_tag, shared_value, type_tag, Erased,
};
use std::cell::RefCell;
use crate::error::EcsError;
use crate::ids::ComponentId;
use std::cell::{BorrowError, BorrowMutError};
use std::marker::PhantomData;
use std::ops::{Deref, DerefMut};
use vstd::prelude::*;

verus! {

/// A shared borrow of the cell led to a value of which `copy` is a clone.
pub open spec fn copied_from<T: Clone + 'static>(cell: RefCell<Erased>, copy: T) -> bool {
    exists|guard: Ref<T>| #[trigger] guard.cell() == cell && cloned(guard.value(), copy)
}

/// An exclusive borrow of the cell led to `previous` when it was granted
/// and to `value` when it was given up.
pub open spec fn exchanged_in<T: 'static>(cell: RefCell<Erased>, previous: T, value: T) -> bool {
    exists|before: RefMut<T>, after: RefMut<T>|
        #![trigger before.cell(), after.cell()]
        {
            &&& before.cell() == cell
            &&& before.value() == previous
            &&& after.cell() == cell
            &&& after.value() == value
        }
}

/// A shared borrow of a component's value of type `T`.
pub struct Ref<'a, T: 'static> {
    data: std::cell::Ref<'a, Erased>,
    p: PhantomData<T>,
}

impl<'a, T: 'static> Ref<'a, T> {
    #[verifier::type_invariant]
    spec fn leads_to_a_t(self) -> bool {
        shared_tag(self.data) == type_tag::<T>()
    }

    /// The guard of the cell that this guard was made from.
    pub closed spec fn guard(self) -> std::cell::Ref<'a, Erased> {
        self.data
    }

    /// The value that the guard leads to.
    pub closed spec fn value(self) -> T {
        shared_value::<T>(self.data)
    }

    /// The cell that the guard was taken from.
    pub closed spec fn cell(self) -> RefCell<Erased> {
        shared_cell(self.data)
    }

    /// Makes a typed guard of a cell's guard where the value behind it is a
    /// `T`, and gives nothing where it is of another type.
    pub fn new(data: std::cell::Ref<'a, Erased>) -> (typed: Option<Self>)
        ensures
            typed.is_some() == (shared_tag(data) == type_tag::<T>()),
            typed matches Some(guard) ==> guard.guard() == data && guard.cell() == shared_cell(
                data,
            ) && guard.value() == shared_value::<T>(data),
    {
        if shared_downcast::<T>(&data).is_some() {
            Some(Ref { data, p: PhantomData })
        } else {
            None
        }
    }

    /// What an attempt at a shared borrow of the given component's cell
    /// comes to: a borrow error where the cell refused, the typed guard
    /// where it granted and the value is a `T`, a type mismatch where it
    /// granted and the value is of another type.
    pub fn from_attempt(
        component: ComponentId,
        attempt: Result<std::cell::Ref<'a, Erased>, BorrowError>,
    ) -> (outcome: Result<Self, EcsError>)
        ensures
            match attempt {
                Err(_) => outcome == Err::<Self, EcsError>(EcsError::BorrowError(component)),
                Ok(guard) => if shared_tag(guard) == type_tag::<T>() {
                    outcome matches Ok(typed) && typed.guard() == guard && typed.cell()
                        == shared_cell(guard) && typed.value() == shared_value::<T>(guard)
                } else {
                    outcome == Err::<Self, EcsError>(EcsError::ComponentTypeMismatch(component))
                },
            },
    {
        match attempt {
            Err(_) => Err(EcsError::BorrowError(component)),
            Ok(guard) => match Ref::new(guard) {
                Some(typed) => Ok(typed),
                None => Err(EcsError::ComponentTypeMismatch(component)),
            },
        }
    }
}

impl<'a, T: 'static> Deref for Ref<'a, T> {
    type Target = T;

    /// The value that the guard leads to.
    fn deref(&self) -> (value: &T)
        ensures
            *value == self.value(),
    {
        proof {
            use_type_invariant(self);
        }
        shared_downcast::<T>(&self.data).unwrap()
    }
}

/// The exclusive borrow of a component's value of type `T`.
pub struct RefMut<'a, T: 'static> {
    data: std::cell::RefMut<'a, Erased>,
    p: PhantomData<T>,
}

impl<'a, T: 'static> RefMut<'a, T> {
    #[verifier::type_invariant]
    spec fn leads_to_a_t(self) -> bool {
        exclusive_tag(self.data) == type_tag::<T>()
    }

    /// The guard of the cell that this guard was made from, as it is now.
    pub closed spec fn guard(self) -> std::cell::RefMut<'a, Erased> {
        self.data
    }

    /// The value that the guard leads to, as it is now.
    pub closed spec fn value(self) -> T {
        exclusive_value::<T>(self.data)
    }

    /// The cell that the guard was taken from.
    pub closed spec fn cell(self) -> RefCell<Erased> {
        exclusive_cell(self.data)
    }

    /// Makes a typed guard of a cell's guard where the value behind it is a
    /// `T`, and gives nothing where it is of another type.
    pub fn new(data: std::cell::RefMut<'a, Erased>) -> (typed: Option<Self>)
        ensures
            typed.is_some() == (exclusive_tag(data) == type_tag::<T>()),
            typed matches Some(guard) ==> guard.guard() == data && guard.cell()
                == exclusive_cell(data) && guard.value() == exclusive_value::<T>(data),
    {
        if exclusive_downcast::<T>(&data).is_some() {
            Some(RefMut { data, p: PhantomData })
        } else {
            None
        }
    }

    /// What an attempt at the exclusive borrow of the given component's cell
    /// comes to: a borrow error where the cell refused, the typed guard
    /// where it granted and the value is a `T`, a type mismatch where it
    /// granted and the value is of another type.
    pub fn from_attempt(
        component: ComponentId,
        attempt: Result<std::cell::RefMut<'a, Erased>, BorrowMutError>,
    ) -> (outcome: Result<Self, EcsError>)
        ensures
            match attempt {
                Err(_) => outcome == Err::<Self, EcsError>(EcsError::BorrowError(component)),
                Ok(guard) => if exclusive_tag(guard) == type_tag::<T>() {
                    outcome matches Ok(typed) && typed.guard() == guard && typed.cell()
                        == exclusive_cell(guard) && typed.value() == exclusive_value::<T>(guard)
                } else {
                    outcome == Err::<Self, EcsError>(EcsError::ComponentTypeMismatch(component))
                },
            },
    {
        match attempt {
            Err(_) => Err(EcsError::BorrowError(component)),
            Ok(guard) => match RefMut::new(guard) {
                Some(typed) => Ok(typed),
                None => Err(EcsError::ComponentTypeMismatch(component)),
            },
        }
    }

    /// Puts a new value in the component's place and gives the old one back.
    pub fn replace(&mut self, value: T) -> (previous: T)
        ensures
            previous == old(self).value(),
            final(self).value() == value,
            final(self).cell() == old(self).cell(),
    {
        proof {
            use_type_invariant(&*self);
        }
        let mut value = value;
        let slot = exclusive_downcast_mut::<T>(&mut self.data).unwrap();
        std::mem::swap(slot, &mut value);
        value
    }
}

impl<'a, T: 'static> Deref for RefMut<'a, T> {
    type Target = T;

    /// The value that the guard leads to.
    fn deref(&self) -> (value: &T)
        ensures
            *value == self.value(),
    {
        proof {
            use_type_invariant(self);
        }
        exclusive_downcast::<T>(&self.data).unwrap()
    }
}

impl<'a, T: 'static> DerefMut for RefMut<'a, T> {
    /// The place of the value that the guard leads to. What is written
    /// there is the value that the guard leads to from then on.
    fn deref_mut(&mut self) -> (value: &mut T)
        ensures
            *value == old(self).value(),
            *final(value) == final(self).value(),
            final(self).cell() == old(self).cell(),
    {
        proof {
            use_type_invariant(&*self);
        }
        exclusive_downcast_mut::<T>(&mut self.data).unwrap()
    }
}

} // verus!
