//! Walking over the components of one type with a borrow of each.
//!
//! A walk takes the identifiers of the components once, when it is made.
//! It borrows each value only when it steps to it, so a step sees what the
//! steps before it, and anyone else, have written by then.

use crate::erased::type_tag;
use crate::error::EcsError;
use crate::guards::{Ref, RefMut};
use crate::ids::ComponentId;
use crate::store::Ecs;
use std::marker::PhantomData;
use vstd::prelude::*;

verus! {

/// A walk over the components of type `T` that borrows each one shared.
pub struct Iter<'a, T: 'static> {
    ids: Vec<ComponentId>,
    next: usize,
    parent: &'a Ecs,
    p: PhantomData<T>,
}

impl<'a, T: 'static> Iter<'a, T> {
    #[verifier::type_invariant]
    spec fn in_range(self) -> bool {
        self.next <= self.ids@.len()
    }

    /// The components that the walk goes over, in its order.
    pub closed spec fn ids(self) -> Seq<ComponentId> {
        self.ids@
    }

    /// How many components the walk has stepped to.
    pub closed spec fn position(self) -> nat {
        self.next as nat
    }

    /// The store that the walk borrows from.
    pub closed spec fn store(self) -> Ecs {
        *self.parent
    }

    pub(crate) fn new(ids: Vec<ComponentId>, parent: &'a Ecs) -> (walk: Self)
        ensures
            walk.ids() == ids@,
            walk.position() == 0,
            walk.store() == *parent,
    {
        Iter { ids, next: 0, parent, p: PhantomData }
    }

    /// Steps to the next component and borrows it shared. Gives `None` once
    /// the walk is over. A step whose borrow is refused gives the error and
    /// moves on all the same.
    pub fn next(&mut self) -> (step: Option<Result<(ComponentId, Ref<'a, T>), EcsError>>)
        ensures
            final(self).ids() == old(self).ids(),
            final(self).store() == old(self).store(),
            old(self).position() <= old(self).ids().len() <= usize::MAX,
            match step {
                None => old(self).position() == old(self).ids().len() && final(self).position()
                    == old(self).position(),
                Some(outcome) => {
                    let id = old(self).ids()[old(self).position() as int];
                    &&& old(self).position() < old(self).ids().len()
                    &&& final(self).position() == old(self).position() + 1
                    &&& old(self).store()@.access_outcome(id, type_tag::<T>(), outcome)
                    &&& outcome matches Ok(pair) ==> pair.0 == id
                    &&& outcome matches Ok(pair) ==> pair.1.cell() == old(self).store().cell_of(id)
                },
            },
    {
        proof {
            use_type_invariant(&*self);
        }
        if self.next >= self.ids.len() {
            return None;
        }
        let id = self.ids[self.next];
        self.next = self.next + 1;
        match self.parent.borrow_by_id::<T>(id) {
            Ok(guard) => Some(Ok((id, guard))),
            Err(error) => Some(Err(error)),
        }
    }
}

/// A walk over the components of type `T` that borrows each one exclusively.
pub struct IterMut<'a, T: 'static> {
    ids: Vec<ComponentId>,
    next: usize,
    parent: &'a Ecs,
    p: PhantomData<T>,
}

impl<'a, T: 'static> IterMut<'a, T> {
    #[verifier::type_invariant]
    spec fn in_range(self) -> bool {
        self.next <= self.ids@.len()
    }

    /// The components that the walk goes over, in its order.
    pub closed spec fn ids(self) -> Seq<ComponentId> {
        self.ids@
    }

    /// How many components the walk has stepped to.
    pub closed spec fn position(self) -> nat {
        self.next as nat
    }

    /// The store that the walk borrows from.
    pub closed spec fn store(self) -> Ecs {
        *self.parent
    }

    pub(crate) fn new(ids: Vec<ComponentId>, parent: &'a Ecs) -> (walk: Self)
        ensures
            walk.ids() == ids@,
            walk.position() == 0,
            walk.store() == *parent,
    {
        IterMut { ids, next: 0, parent, p: PhantomData }
    }

    /// Steps to the next component and borrows it exclusively. Gives `None`
    /// once the walk is over. A step whose borrow is refused gives the error
    /// and moves on all the same.
    pub fn next(&mut self) -> (step: Option<Result<(ComponentId, RefMut<'a, T>), EcsError>>)
        ensures
            final(self).ids() == old(self).ids(),
            final(self).store() == old(self).store(),
            old(self).position() <= old(self).ids().len() <= usize::MAX,
            match step {
                None => old(self).position() == old(self).ids().len() && final(self).position()
                    == old(self).position(),
                Some(outcome) => {
                    let id = old(self).ids()[old(self).position() as int];
                    &&& old(self).position() < old(self).ids().len()
                    &&& final(self).position() == old(self).position() + 1
                    &&& old(self).store()@.access_outcome(id, type_tag::<T>(), outcome)
                    &&& outcome matches Ok(pair) ==> pair.0 == id
                    &&& outcome matches Ok(pair) ==> pair.1.cell() == old(self).store().cell_of(id)
                },
            },
    {
        proof {
            use_type_invariant(&*self);
        }
        if self.next >= self.ids.len() {
            return None;
        }
        let id = self.ids[self.next];
        self.next = self.next + 1;
        match self.parent.borrow_mut_by_id::<T>(id) {
            Ok(guard) => Some(Ok((id, guard))),
            Err(error) => Some(Err(error)),
        }
    }
}

} // verus!
