//! The store: entities, their components, and the operations on them.

use crate::erased::{
    cell_tag, new_cell, same_type, try_borrow, try_borrow_mut, type_id_of, type_tag, Erased,
};
use crate::error::EcsError;
use crate::guards::{copied_from, exchanged_in, Ref, RefMut};
use crate::ids::{ComponentId, EcsId, EntityId};
use crate::query::{Iter, IterMut};
use crate::slots::{spelled_out, ComponentMap};
use crate::tables::{
    absorb, component_table, entity_table, keys_of, lemma_component_table_finite,
    lemma_component_table_insert, lemma_component_table_remove, lemma_entity_table_finite,
    lemma_entity_table_insert, lemma_entity_table_remove,
};
use crate::view::{
    lemma_merge_consistent, lemma_new_component, lemma_new_entity, lemma_origins_of_merge,
    lemma_origins_of_new_component, lemma_origins_of_new_entity,
    lemma_one_component_per_holder, lemma_remove_entity, ComponentInfo, EcsView,
};
use std::any::TypeId;
use std::cell::RefCell;
use std::collections::HashMap;
use vstd::prelude::*;

verus! {

/// Anything that can be a component: every type without borrowed parts.
pub trait Component: 'static {

}

impl<T: 'static> Component for T {

}

/// One row of the component table: the value in its cell, the entity that
/// owns it, and the runtime type of the value.
pub struct ComponentEntry {
    refbox: RefCell<Erased>,
    parent: EntityId,
    type_id: TypeId,
}

impl ComponentEntry {
    #[verifier::type_invariant]
    spec fn cell_holds_the_type(self) -> bool {
        cell_tag(self.refbox) == self.type_id
    }

    /// What the row records: the owner, the type, and the cell.
    pub closed spec fn info(&self) -> ComponentInfo {
        ComponentInfo { parent: self.parent, tag: self.type_id, cell: self.refbox }
    }

    /// A row for the given value, owned by the given entity.
    pub fn new<T: Component>(component: T, parent: EntityId) -> (entry: Self)
        ensures
            entry.info().parent == parent,
            entry.info().tag == type_tag::<T>(),
            cell_tag(entry.info().cell) == type_tag::<T>(),
    {
        ComponentEntry { refbox: new_cell(component), parent, type_id: type_id_of::<T>() }
    }
}

/// The entity component store. It holds all entities and components.
pub struct Ecs {
    /// The identifier of this store.
    ecs_id: EcsId,
    /// The number of the next entity.
    next_entity_id: u64,
    /// The number of the next component.
    next_component_id: u64,
    /// Each entity, by key, with its components.
    entities: HashMap<u128, ComponentMap>,
    /// Each component, by key, with its value, owner and type.
    components: HashMap<u128, ComponentEntry>,
}

impl View for Ecs {
    type V = EcsView;

    closed spec fn view(&self) -> EcsView {
        EcsView {
            store: self.ecs_id,
            next_entity: self.next_entity_id as nat,
            next_component: self.next_component_id as nat,
            entities: entity_table(self.entities@),
            components: component_table(self.components@),
        }
    }
}

impl Ecs {
    /// The store's tables are consistent.
    pub open spec fn wf(&self) -> bool {
        self@.consistent()
    }

    /// The cell that holds the value of the given component.
    pub open spec fn cell_of(&self, id: ComponentId) -> RefCell<Erased> {
        self@.components[id].cell
    }

    /// The cell that holds the value of the component of the given type on
    /// the given entity.
    pub open spec fn cell_on(&self, entity: EntityId, tag: TypeId) -> RefCell<Erased> {
        self.cell_of(self@.slot(entity, tag)->0)
    }

    /// The tables of a store are finite and its counters are machine numbers.
    pub proof fn lemma_finite(&self)
        ensures
            self@.finite(),
            self@.next_entity <= u64::MAX,
            self@.next_component <= u64::MAX,
    {
        lemma_entity_table_finite(self.entities@);
        lemma_component_table_finite(self.components@);
    }

    /// Create a new store under an identifier drawn at random. Stores that
    /// are to be known apart take their identifiers from an `IdAllocator`
    /// and are made with `with_id`.
    pub fn new() -> (ecs: Self)
        ensures
            ecs.wf(),
            ecs@ == EcsView::empty(ecs@.store),
    {
        let ecs = Ecs {
            ecs_id: EcsId::new(),
            next_entity_id: 0,
            next_component_id: 0,
            entities: HashMap::new(),
            components: HashMap::new(),
        };
        proof {
            assert(ecs@.entities =~= Map::empty());
            assert(ecs@.components =~= Map::empty());
        }
        ecs
    }

    /// Create a new store under the given identifier. The caller sees to it
    /// that no two stores that may meet in a merge are made under one
    /// identifier; identifiers from one `IdAllocator` are such.
    pub fn with_id(id: EcsId) -> (ecs: Self)
        ensures
            ecs.wf(),
            ecs@ == EcsView::empty(id),
    {
        let ecs = Ecs {
            ecs_id: id,
            next_entity_id: 0,
            next_component_id: 0,
            entities: HashMap::new(),
            components: HashMap::new(),
        };
        proof {
            assert(ecs@.entities =~= Map::empty());
            assert(ecs@.components =~= Map::empty());
        }
        ecs
    }

    /// Create a new store that allocates nothing until it is filled; meant
    /// to be filled on the side and merged into another.
    pub fn empty() -> (ecs: Self)
        ensures
            ecs.wf(),
            ecs@ == EcsView::empty(ecs@.store),
    {
        let ecs = Ecs {
            ecs_id: EcsId::new(),
            next_entity_id: 0,
            next_component_id: 0,
            entities: HashMap::with_capacity(0),
            components: HashMap::with_capacity(0),
        };
        proof {
            assert(ecs@.entities =~= Map::empty());
            assert(ecs@.components =~= Map::empty());
        }
        ecs
    }

    /// Returns true if `entity` exists; false otherwise.
    pub fn has_entity(&self, entity: EntityId) -> (found: bool)
        ensures
            found == self@.entities.contains_key(entity),
    {
        self.entities.contains_key(&entity.to_key())
    }

    /// Returns true if `component` exists; false otherwise.
    pub fn has_component_by_id(&self, component: ComponentId) -> (found: bool)
        ensures
            found == self@.components.contains_key(component),
    {
        self.components.contains_key(&component.to_key())
    }

    /// Takes the next entity number, or fails where the numbers have run
    /// out.
    fn create_entity_id(&mut self) -> (id: Option<EntityId>)
        ensures
            match id {
                Some(entity) => {
                    &&& old(self)@.next_entity < u64::MAX
                    &&& entity == old(self)@.next_entity_id()
                    &&& final(self)@ == (EcsView {
                        next_entity: old(self)@.next_entity + 1,
                        ..old(self)@
                    })
                },
                None => old(self)@.next_entity == u64::MAX && final(self)@ == old(self)@,
            },
            final(self).entities == old(self).entities,
            final(self).components == old(self).components,
    {
        let new_id_number = self.next_entity_id;
        match self.next_entity_id.checked_add(1) {
            Some(next) => {
                self.next_entity_id = next;
                Some(EntityId::mint(self.ecs_id, new_id_number))
            },
            None => None,
        }
    }

    /// Takes the next component number, or fails where the numbers have run
    /// out.
    fn create_component_id(&mut self) -> (id: Option<ComponentId>)
        ensures
            match id {
                Some(component) => {
                    &&& old(self)@.next_component < u64::MAX
                    &&& component == old(self)@.next_component_id()
                    &&& final(self)@ == (EcsView {
                        next_component: old(self)@.next_component + 1,
                        ..old(self)@
                    })
                },
                None => old(self)@.next_component == u64::MAX && final(self)@ == old(self)@,
            },
            final(self).entities == old(self).entities,
            final(self).components == old(self).components,
    {
        let new_id_number = self.next_component_id;
        match self.next_component_id.checked_add(1) {
            Some(next) => {
                self.next_component_id = next;
                Some(ComponentId::mint(self.ecs_id, new_id_number))
            },
            None => None,
        }
    }

    /// Create an entity, or return `None` if no more entity identifiers can
    /// be created.
    ///
    /// A store can make `2^64 - 1` entities before that happens.
    pub fn try_create_entity(&mut self) -> (id: Option<EntityId>)
        ensures
            match id {
                Some(entity) => {
                    &&& old(self)@.next_entity < u64::MAX
                    &&& entity == old(self)@.next_entity_id()
                    &&& final(self)@ == old(self)@.with_new_entity()
                },
                None => old(self)@.next_entity == u64::MAX && final(self)@ == old(self)@,
            },
            final(self)@.keeps_rows_of(old(self)@),
            final(self)@.origins() == old(self)@.origins(),
            old(self).wf() ==> final(self).wf(),
            old(self).wf() && id is Some ==> !old(self)@.entities.contains_key(id->0),
    {
        let new_id = match self.create_entity_id() {
            Some(new_id) => new_id,
            None => {
                return None;
            },
        };
        let slots = ComponentMap::new();
        self.entities.insert(new_id.to_key(), slots);
        proof {
            lemma_entity_table_insert(old(self).entities@, new_id, slots);
            if old(self).wf() {
                lemma_new_entity(old(self)@);
            }
            old(self).lemma_finite();
            lemma_origins_of_new_entity(old(self)@);
        }
        Some(new_id)
    }

    /// Create an entity.
    ///
    /// The caller sees to it that the store has an entity number left; a
    /// store can make `2^64 - 1` entities before it has none.
    pub fn create_entity(&mut self) -> (entity: EntityId)
        requires
            old(self)@.next_entity < u64::MAX,
        ensures
            entity == old(self)@.next_entity_id(),
            final(self)@ == old(self)@.with_new_entity(),
            final(self)@.keeps_rows_of(old(self)@),
            final(self)@.origins() == old(self)@.origins(),
            old(self).wf() ==> final(self).wf(),
            old(self).wf() ==> !old(self)@.entities.contains_key(entity),
    {
        self.try_create_entity().unwrap()
    }

    /// Removes the row of a component. Does not touch the entity table.
    fn remove_component(&mut self, component: ComponentId) -> (done: Result<(), EcsError>)
        ensures
            final(self).entities == old(self).entities,
            final(self).ecs_id == old(self).ecs_id,
            final(self).next_entity_id == old(self).next_entity_id,
            final(self).next_component_id == old(self).next_component_id,
            component_table(final(self).components@) == component_table(
                old(self).components@,
            ).remove(component),
            done == if component_table(old(self).components@).contains_key(component) {
                Ok::<(), EcsError>(())
            } else {
                Err::<(), EcsError>(EcsError::ComponentNotFound(component))
            },
    {
        proof {
            lemma_component_table_remove(self.components@, component);
        }
        match self.components.remove(&component.to_key()) {
            Some(_) => Ok(()),
            None => Err(EcsError::ComponentNotFound(component)),
        }
    }

    /// Delete an entity and all components attached to it. Returns an error
    /// if `entity` doesn't exist.
    pub fn remove_entity(&mut self, entity: EntityId) -> (done: Result<(), EcsError>)
        requires
            old(self).wf(),
        ensures
            final(self).wf(),
            done == if old(self)@.entities.contains_key(entity) {
                Ok::<(), EcsError>(())
            } else {
                Err::<(), EcsError>(EcsError::EntityNotFound(entity))
            },
            final(self)@ == if old(self)@.entities.contains_key(entity) {
                old(self)@.without_entity(entity)
            } else {
                old(self)@
            },
            !final(self)@.entities.contains_key(entity),
            final(self)@.keeps_rows_of(old(self)@),
            final(self)@.origins().subset_of(old(self)@.origins()),
            forall|component: ComponentId| #[trigger]
                old(self)@.components.contains_key(component)
                    && old(self)@.components[component].parent == entity
                    ==> !final(self)@.components.contains_key(component),
    {
        let ghost before = old(self)@;
        proof {
            lemma_entity_table_remove(self.entities@, entity);
        }
        let slots = match self.entities.remove(&entity.to_key()) {
            Some(slots) => slots,
            None => {
                assert(self@.entities =~= before.entities);
                return Err(EcsError::EntityNotFound(entity));
            },
        };
        let n = slots.len();
        let ghost pairs = slots.pairs();
        proof {
            lemma_remove_entity(before, entity);
        }
        let mut i: usize = 0;
        while i < n
            invariant
                i <= n,
                n == pairs.len(),
                pairs == slots.pairs(),
                spelled_out(pairs, before.entities[entity]),
                before == old(self)@,
                before.consistent(),
                before.entities.contains_key(entity),
                self.ecs_id == old(self).ecs_id,
                self.next_entity_id == old(self).next_entity_id,
                self.next_component_id == old(self).next_component_id,
                entity_table(self.entities@) == before.entities.remove(entity),
                component_table(self.components@) == before.components.remove_keys(
                    Set::new(|c: ComponentId| exists|j: int| 0 <= j < i && pairs[j].1 == c),
                ),
            decreases n - i,
        {
            let id = slots.id_at(i);
            proof {
                let tag = pairs[i as int].0;
                assert(before.slot(entity, tag) == Some(id));
                assert forall|j: int| 0 <= j < i implies pairs[j].1 != id by {
                    assert(before.slot(entity, pairs[j].0) == Some(pairs[j].1));
                }
            }
            match self.remove_component(id) {
                Ok(_) => {},
                Err(_) => {
                    return Err(
                        EcsError::InternalError(
                            "Failed to remove component attached to an entity.",
                            None,
                        ),
                    );
                },
            }
            i = i + 1;
        }
        proof {
            let removed = Set::new(
                |c: ComponentId| exists|j: int| 0 <= j < n && pairs[j].1 == c,
            );
            assert(removed =~= before.entities[entity].values());
        }
        Ok(())
    }

    /// Checks if `entity` has a component of the specified type attached
    /// to it. If it does, it returns the component's ID; None otherwise.
    ///
    /// Returns an error if `entity` doesn't exist.
    pub fn has_component<T: Component>(&self, entity: EntityId) -> (found: Result<
        Option<ComponentId>,
        EcsError,
    >)
        ensures
            found == self@.find(entity, type_tag::<T>()),
    {
        match self.entities.get(&entity.to_key()) {
            Some(slots) => Ok(slots.get(&type_id_of::<T>())),
            None => Err(EcsError::EntityNotFound(entity)),
        }
    }

    /// Returns the ID of the component of type `T` on `entity`. If `entity`
    /// doesn't have a matching component, an error is returned.
    pub fn lookup_component<T: Component>(&self, entity: EntityId) -> (found: Result<
        ComponentId,
        EcsError,
    >)
        ensures
            found == self@.lookup(entity, type_tag::<T>()),
    {
        match self.has_component::<T>(entity) {
            Ok(Some(component)) => Ok(component),
            Ok(None) => Err(EcsError::ComponentTypeNotFound(entity)),
            Err(error) => Err(error),
        }
    }

    /// Returns the ID of the entity that `component` is attached to.
    pub fn get_parent(&self, component: ComponentId) -> (parent: Result<EntityId, EcsError>)
        ensures
            parent == self@.parent_of(component),
    {
        match self.components.get(&component.to_key()) {
            Some(entry) => Ok(entry.parent),
            None => Err(EcsError::ComponentNotFound(component)),
        }
    }

    /// Returns true if `component` is attached to `entity`. Returns an error
    /// if the entity doesn't exist.
    pub fn is_component_attached(&self, entity: EntityId, component: ComponentId) -> (attached:
        Result<bool, EcsError>)
        ensures
            attached == self@.is_attached(entity, component),
    {
        match self.entities.get(&entity.to_key()) {
            Some(slots) => Ok(slots.holds(component)),
            None => Err(EcsError::EntityNotFound(entity)),
        }
    }

    /// Returns true if `component` is the specified type; false otherwise.
    /// Returns an error if the component doesn't exist.
    pub fn component_is_type<T: Component>(&self, component: ComponentId) -> (is_type: Result<
        bool,
        EcsError,
    >)
        ensures
            is_type == self@.is_of_type(component, type_tag::<T>()),
    {
        match self.components.get(&component.to_key()) {
            Some(entry) => Ok(same_type(&entry.type_id, &type_id_of::<T>())),
            None => Err(EcsError::ComponentNotFound(component)),
        }
    }

    /// Makes a row for the given value. Does not touch the entity table.
    fn create_component<T: Component>(&mut self, component: T, parent: EntityId) -> (made: Result<
        ComponentId,
        EcsError,
    >)
        ensures
            final(self).entities == old(self).entities,
            match made {
                Ok(id) => {
                    &&& old(self)@.next_component < u64::MAX
                    &&& id == old(self)@.next_component_id()
                    &&& final(self)@ == (EcsView {
                        next_component: old(self)@.next_component + 1,
                        components: old(self)@.components.insert(
                            id,
                            final(self)@.components[id],
                        ),
                        ..old(self)@
                    })
                    &&& final(self)@.components[id].parent == parent
                    &&& final(self)@.components[id].tag == type_tag::<T>()
                    &&& cell_tag(final(self)@.components[id].cell) == type_tag::<T>()
                },
                Err(error) => old(self)@.next_component == u64::MAX && error
                    == EcsError::IdsExhausted && final(self)@ == old(self)@,
            },
    {
        let new_id = match self.create_component_id() {
            Some(new_id) => new_id,
            None => {
                return Err(EcsError::IdsExhausted);
            },
        };
        let entry = ComponentEntry::new(component, parent);
        proof {
            lemma_component_table_insert(self.components@, new_id, entry);
        }
        self.components.insert(new_id.to_key(), entry);
        Ok(new_id)
    }

    /// Makes a component of type `T` for an entity that has none of that
    /// type, and lists it with the entity.
    fn create_and_attach_component<T: Component>(
        &mut self,
        entity: EntityId,
        component: T,
    ) -> (made: Result<ComponentId, EcsError>)
        requires
            old(self).wf(),
            old(self)@.find(entity, type_tag::<T>()) == Ok::<Option<ComponentId>, EcsError>(None),
        ensures
            final(self).wf(),
            match made {
                Ok(id) => {
                    &&& old(self)@.next_component < u64::MAX
                    &&& id == old(self)@.next_component_id()
                    &&& final(self)@ == old(self)@.with_new_component(
                        entity,
                        type_tag::<T>(),
                        final(self).cell_of(id),
                    )
                    &&& cell_tag(final(self).cell_of(id)) == type_tag::<T>()
                },
                Err(error) => old(self)@.next_component == u64::MAX && error
                    == EcsError::IdsExhausted && final(self)@ == old(self)@,
            },
    {
        let component_id = match self.create_component(component, entity) {
            Ok(component_id) => component_id,
            Err(error) => {
                return Err(error);
            },
        };
        let ghost raw = self.entities@;
        let mut slots = match self.entities.remove(&entity.to_key()) {
            Some(slots) => slots,
            None => {
                return Err(EcsError::EntityNotFound(entity));
            },
        };
        slots.insert(type_id_of::<T>(), component_id);
        self.entities.insert(entity.to_key(), slots);
        proof {
            assert(self.entities@ =~= raw.insert(entity.key(), slots));
            lemma_entity_table_insert(raw, entity, slots);
            lemma_new_component(old(self)@, entity, type_tag::<T>(), self.cell_of(component_id));
        }
        Ok(component_id)
    }

    /// The cell of a component.
    fn get_refcell(&self, id: ComponentId) -> (found: Result<&RefCell<Erased>, EcsError>)
        ensures
            match found {
                Ok(cell) => self@.components.contains_key(id) && *cell == self.cell_of(id)
                    && cell_tag(*cell) == self@.components[id].tag,
                Err(error) => !self@.components.contains_key(id) && error
                    == EcsError::ComponentNotFound(id),
            },
    {
        match self.components.get(&id.to_key()) {
            Some(entry) => {
                proof {
                    use_type_invariant(entry);
                }
                Ok(&entry.refbox)
            },
            None => Err(EcsError::ComponentNotFound(id)),
        }
    }

    /// Puts `component` in the place of the value of the component
    /// `component_id`, whatever the entity table says of it.
    fn replace_by_id_unchecked<T: Component>(
        &self,
        component_id: ComponentId,
        component: T,
    ) -> (replaced: Result<T, EcsError>)
        ensures
            self@.access_outcome(component_id, type_tag::<T>(), replaced),
            replaced matches Ok(previous) ==> exchanged_in(
                self.cell_of(component_id),
                previous,
                component,
            ),
    {
        let mut guard = match self.borrow_mut_by_id::<T>(component_id) {
            Ok(guard) => guard,
            Err(error) => {
                return Err(error);
            },
        };
        Ok(guard.replace(component))
    }

    /// Set the component on `entity` for type `T` to `component`. Unlike
    /// `Ecs::set`, this will return an error rather than create a new
    /// component.
    ///
    /// If successful, the replaced component is returned.
    pub fn replace<T: Component>(&self, entity: EntityId, component: T) -> (replaced: Result<
        T,
        EcsError,
    >)
        ensures
            self@.access_outcome_on(entity, type_tag::<T>(), replaced),
            self@.find(entity, type_tag::<T>()) == Ok::<Option<ComponentId>, EcsError>(None)
                ==> replaced == Err::<T, EcsError>(EcsError::ComponentTypeNotFound(entity)),
            replaced matches Ok(previous) ==> exchanged_in(
                self.cell_on(entity, type_tag::<T>()),
                previous,
                component,
            ),
    {
        match self.has_component::<T>(entity) {
            Ok(Some(component_id)) => self.replace_by_id_unchecked(component_id, component),
            Ok(None) => Err(EcsError::ComponentTypeNotFound(entity)),
            Err(error) => Err(error),
        }
    }

    /// Replace the component at `component_id` with `component`. Returns an
    /// error if the component doesn't exist, or if the type `T` is incorrect.
    ///
    /// If successful, the replaced component is returned.
    pub fn replace_by_id<T: Component>(&self, component_id: ComponentId, component: T) -> (replaced:
        Result<T, EcsError>)
        ensures
            match self@.is_of_type(component_id, type_tag::<T>()) {
                Ok(true) => replaced is Ok || replaced == Err::<T, EcsError>(
                    EcsError::BorrowError(component_id),
                ),
                Ok(false) => replaced == Err::<T, EcsError>(
                    EcsError::ComponentTypeMismatch(component_id),
                ),
                Err(error) => replaced == Err::<T, EcsError>(error),
            },
            replaced matches Ok(previous) ==> exchanged_in(
                self.cell_of(component_id),
                previous,
                component,
            ),
    {
        match self.component_is_type::<T>(component_id) {
            Ok(true) => self.replace_by_id_unchecked(component_id, component),
            Ok(false) => Err(EcsError::ComponentTypeMismatch(component_id)),
            Err(error) => Err(error),
        }
    }

    /// Set the component on `entity` for type `T` to `component`. If `entity`
    /// doesn't already have a component of type `T`, this creates a new one.
    ///
    /// If successful, the `ComponentId` of the component that now holds the
    /// value is returned: where the entity had a component of type `T`, it
    /// is that one.
    pub fn set<T: Component>(&mut self, entity: EntityId, component: T) -> (set: Result<
        ComponentId,
        EcsError,
    >)
        requires
            old(self).wf(),
        ensures
            final(self).wf(),
            final(self)@.keeps_rows_of(old(self)@),
            final(self)@.origins().subset_of(old(self)@.origins()),
            match set {
                Ok(id) => id == old(self)@.set_target(entity, type_tag::<T>()) && final(self)@
                    == old(self)@.after_set(entity, type_tag::<T>(), final(self).cell_of(id)),
                Err(_) => final(self)@ == old(self)@,
            },
            match old(self)@.find(entity, type_tag::<T>()) {
                Ok(Some(id)) => {
                    ||| set == Ok::<ComponentId, EcsError>(id) && exists|previous: T|
                        exchanged_in(old(self).cell_of(id), previous, component)
                    ||| set == Err::<ComponentId, EcsError>(EcsError::BorrowError(id))
                },
                Ok(None) => if old(self)@.next_component < u64::MAX {
                    set matches Ok(id) && !old(self)@.components.contains_key(id)
                } else {
                    set == Err::<ComponentId, EcsError>(EcsError::IdsExhausted)
                },
                Err(error) => set == Err::<ComponentId, EcsError>(error),
            },
    {
        match self.has_component::<T>(entity) {
            Ok(Some(component_id)) => {
                match self.replace::<T>(entity, component) {
                    Ok(_) => Ok(component_id),
                    Err(error) => Err(error),
                }
            },
            Ok(None) => {
                let made = self.create_and_attach_component(entity, component);
                proof {
                    if let Ok(id) = made {
                        let cell = self.cell_of(id);
                        lemma_new_component(old(self)@, entity, type_tag::<T>(), cell);
                        lemma_origins_of_new_component(old(self)@, entity, type_tag::<T>(), cell);
                    }
                }
                made
            },
            Err(error) => Err(error),
        }
    }

    /// Get a copy of the specified component.
    ///
    /// Returns an error if a mutable borrow of this component already exists.
    pub fn get<T: Component + Clone>(&self, entity: EntityId) -> (copy: Result<T, EcsError>)
        ensures
            self@.access_outcome_on(entity, type_tag::<T>(), copy),
            copy matches Ok(value) ==> copied_from(self.cell_on(entity, type_tag::<T>()), value),
    {
        match self.borrow::<T>(entity) {
            Ok(guard) => {
                let value: &T = &*guard;
                Ok(value.clone())
            },
            Err(error) => Err(error),
        }
    }

    /// Get an immutable borrow of the specified component.
    /// Borrows of components are independent of each other.
    ///
    /// Any number of immutable borrows of a given component can exist at the
    /// same time.
    ///
    /// Returns an error if a mutable borrow of this component already exists.
    pub fn borrow<T: Component>(&self, entity: EntityId) -> (guard: Result<Ref<'_, T>, EcsError>)
        ensures
            self@.access_outcome_on(entity, type_tag::<T>(), guard),
            guard matches Ok(typed) ==> typed.cell() == self.cell_on(entity, type_tag::<T>()),
    {
        match self.lookup_component::<T>(entity) {
            Ok(id) => self.borrow_by_id(id),
            Err(error) => Err(error),
        }
    }

    /// Get a mutable borrow of the specified component.
    /// Borrows of components are independent of each other.
    ///
    /// Exactly one mutable borrow of a given component can exist. No
    /// immutable borrows of that component are allowed while it is mutably
    /// borrowed.
    ///
    /// Returns an error if a mutable or immutable borrow of this component
    /// already exists.
    pub fn borrow_mut<T: Component>(&self, entity: EntityId) -> (guard: Result<
        RefMut<'_, T>,
        EcsError,
    >)
        ensures
            self@.access_outcome_on(entity, type_tag::<T>(), guard),
            guard matches Ok(typed) ==> typed.cell() == self.cell_on(entity, type_tag::<T>()),
    {
        match self.lookup_component::<T>(entity) {
            Ok(id) => self.borrow_mut_by_id(id),
            Err(error) => Err(error),
        }
    }

    /// Get a copy of the specified component.
    ///
    /// Returns an error if a mutable borrow of this component already exists.
    pub fn get_by_id<T: Component + Clone>(&self, component_id: ComponentId) -> (copy: Result<
        T,
        EcsError,
    >)
        ensures
            self@.access_outcome(component_id, type_tag::<T>(), copy),
            copy matches Ok(value) ==> copied_from(self.cell_of(component_id), value),
    {
        match self.borrow_by_id::<T>(component_id) {
            Ok(guard) => {
                let value: &T = &*guard;
                Ok(value.clone())
            },
            Err(error) => Err(error),
        }
    }

    /// Get an immutable borrow of the specified component.
    /// Borrows of components are independent of each other.
    ///
    /// Any number of immutable borrows of a given component can exist at the
    /// same time.
    ///
    /// Returns an error if a mutable borrow of this component already exists.
    pub fn borrow_by_id<T: Component>(&self, component_id: ComponentId) -> (guard: Result<
        Ref<'_, T>,
        EcsError,
    >)
        ensures
            self@.access_outcome(component_id, type_tag::<T>(), guard),
            guard matches Ok(typed) ==> typed.cell() == self.cell_of(component_id),
    {
        let cell = match self.get_refcell(component_id) {
            Ok(cell) => cell,
            Err(error) => {
                return Err(error);
            },
        };
        Ref::from_attempt(component_id, try_borrow(cell))
    }

    /// Get a mutable borrow of the specified component.
    /// Borrows of components are independent of each other.
    ///
    /// Exactly one mutable borrow of a given component can exist. No
    /// immutable borrows of that component are allowed while it is mutably
    /// borrowed.
    ///
    /// Returns an error if a mutable or immutable borrow of this component
    /// already exists.
    pub fn borrow_mut_by_id<T: Component>(&self, component_id: ComponentId) -> (guard: Result<
        RefMut<'_, T>,
        EcsError,
    >)
        ensures
            self@.access_outcome(component_id, type_tag::<T>(), guard),
            guard matches Ok(typed) ==> typed.cell() == self.cell_of(component_id),
    {
        let cell = match self.get_refcell(component_id) {
            Ok(cell) => cell,
            Err(error) => {
                return Err(error);
            },
        };
        RefMut::from_attempt(component_id, try_borrow_mut(cell))
    }

    /// Collect all entity IDs into a vector: each entity once, in no
    /// particular order. What the vector held before is dropped.
    pub fn collect(&self, dest: &mut Vec<EntityId>)
        ensures
            final(dest)@.no_duplicates(),
            final(dest)@.to_set() == self@.entities.dom(),
    {
        dest.clear();
        let keys = keys_of(&self.entities);
        let mut i: usize = 0;
        while i < keys.len()
            invariant
                i <= keys@.len(),
                dest@.len() == i,
                forall|j: int| 0 <= j < i ==> dest@[j] == EntityId::of_key(keys@[j]),
            decreases keys@.len() - i,
        {
            dest.push(EntityId::from_key(keys[i]));
            i = i + 1;
        }
        proof {
            assert forall|a: int, b: int| 0 <= a < b < dest@.len() implies dest@[a] != dest@[b] by {
                EntityId::lemma_key_roundtrip(keys@[a]);
                EntityId::lemma_key_roundtrip(keys@[b]);
            }
            assert(dest@.to_set() =~= self@.entities.dom()) by {
                assert forall|entity: EntityId| dest@.to_set().contains(
                    entity,
                ) implies self@.entities.dom().contains(entity) by {
                    let j = choose|j: int| 0 <= j < dest@.len() && dest@[j] == entity;
                    EntityId::lemma_key_roundtrip(keys@[j]);
                }
                assert forall|entity: EntityId| self@.entities.dom().contains(
                    entity,
                ) implies dest@.to_set().contains(entity) by {
                    let j = choose|j: int| 0 <= j < keys@.len() && keys@[j] == entity.key();
                    EntityId::lemma_of_key_key(entity);
                    assert(dest@[j] == entity);
                }
            }
        }
    }

    /// All components of a specific type: each once, in no particular
    /// order, as the component table holds them at the call.
    pub fn components<T: Component>(&self) -> (ids: Vec<ComponentId>)
        ensures
            ids@.no_duplicates(),
            ids@.to_set() == self@.components_of(type_tag::<T>()),
            self.wf() ==> ids@.len() == self@.entities_with(type_tag::<T>()).len(),
    {
        let tag = type_id_of::<T>();
        let keys = keys_of(&self.components);
        let mut ids: Vec<ComponentId> = Vec::new();
        let mut i: usize = 0;
        while i < keys.len()
            invariant
                i <= keys@.len(),
                tag == type_tag::<T>(),
                keys@.no_duplicates(),
                keys@.to_set() == self.components@.dom(),
                forall|j: int|
                    0 <= j < ids@.len() ==> self@.components_of(tag).contains(#[trigger] ids@[j])
                        && exists|m: int| 0 <= m < i && keys@[m] == ids@[j].key(),
                forall|m: int|
                    0 <= m < i && self@.components_of(tag).contains(
                        ComponentId::of_key(#[trigger] keys@[m]),
                    ) ==> ids@.contains(ComponentId::of_key(keys@[m])),
                ids@.no_duplicates(),
            decreases keys@.len() - i,
        {
            let key = keys[i];
            let ghost before = ids@;
            proof {
                ComponentId::lemma_key_roundtrip(key);
            }
            match self.components.get(&key) {
                Some(entry) => {
                    if same_type(&entry.type_id, &tag) {
                        let id = ComponentId::from_key(key);
                        ids.push(id);
                        proof {
                            assert(ids@[before.len() as int] == id);
                            assert forall|m: int|
                                0 <= m < i + 1 && self@.components_of(tag).contains(
                                    ComponentId::of_key(#[trigger] keys@[m]),
                                ) implies ids@.contains(ComponentId::of_key(keys@[m])) by {
                                if m < i {
                                    let j = choose|j: int|
                                        0 <= j < before.len() && before[j] == ComponentId::of_key(
                                            keys@[m],
                                        );
                                    assert(ids@[j] == before[j]);
                                }
                            }
                        }
                    }
                },
                None => {},
            }
            i = i + 1;
        }
        proof {
            assert(ids@.to_set() =~= self@.components_of(tag)) by {
                assert forall|id: ComponentId| self@.components_of(tag).contains(
                    id,
                ) implies ids@.to_set().contains(id) by {
                    ComponentId::lemma_of_key_key(id);
                }
            }
            if self.wf() {
                ids@.unique_seq_to_set();
                lemma_one_component_per_holder(self@, tag);
            }
        }
        ids
    }

    /// A walk over all components of a specific type that borrows each one
    /// shared when it steps to it.
    pub fn components_ref<T: Component>(&self) -> (walk: Iter<'_, T>)
        ensures
            walk.ids().no_duplicates(),
            walk.ids().to_set() == self@.components_of(type_tag::<T>()),
            walk.position() == 0,
            walk.store() == *self,
    {
        Iter::new(self.components::<T>(), self)
    }

    /// A walk over all components of a specific type that borrows each one
    /// exclusively when it steps to it.
    pub fn components_mut<T: Component>(&self) -> (walk: IterMut<'_, T>)
        ensures
            walk.ids().no_duplicates(),
            walk.ids().to_set() == self@.components_of(type_tag::<T>()),
            walk.position() == 0,
            walk.store() == *self,
    {
        IterMut::new(self.components::<T>(), self)
    }

    /// The entities that hold a component of a specific type: each once, in
    /// no particular order.
    pub fn entities_with<T: Component>(&self) -> (holders: Vec<EntityId>)
        requires
            self.wf(),
        ensures
            holders@.no_duplicates(),
            holders@.to_set() == self@.entities_with(type_tag::<T>()),
    {
        let ghost tag = type_tag::<T>();
        let ids = self.components::<T>();
        let mut holders: Vec<EntityId> = Vec::new();
        let mut i: usize = 0;
        while i < ids.len()
            invariant
                i <= ids@.len(),
                holders@.len() == i,
                tag == type_tag::<T>(),
                ids@.to_set() == self@.components_of(tag),
                forall|j: int|
                    0 <= j < i ==> #[trigger] holders@[j] == self@.components[ids@[j]].parent,
            decreases ids@.len() - i,
        {
            proof {
                assert(ids@.to_set().contains(ids@[i as int]));
            }
            match self.get_parent(ids[i]) {
                Ok(parent) => {
                    holders.push(parent);
                },
                Err(_) => {},
            }
            i = i + 1;
        }
        proof {
            let v = self@;
            assert forall|j: int| 0 <= j < ids@.len() implies v.components_of(tag).contains(
                #[trigger] ids@[j],
            ) && v.slot(holders@[j], tag) == Some(ids@[j]) by {}
            assert(holders@.to_set() =~= v.entities_with(tag)) by {
                assert forall|entity: EntityId| v.entities_with(tag).contains(
                    entity,
                ) implies holders@.to_set().contains(entity) by {
                    assert(v.slot(entity, tag) is Some);
                    let id = v.entities[entity][tag];
                    assert(v.components_of(tag).contains(id));
                }
            }
        }
        holders
    }

    /// The stores whose identifiers occur in this one, itself included. A
    /// store may be listed more than once.
    fn origin_list(&self) -> (list: Vec<EcsId>)
        ensures
            list@.to_set() == self@.origins(),
    {
        let mut list: Vec<EcsId> = Vec::new();
        list.push(self.ecs_id);
        let entity_keys = keys_of(&self.entities);
        let mut i: usize = 0;
        while i < entity_keys.len()
            invariant
                i <= entity_keys@.len(),
                list@.len() == 1 + i,
                list@[0] == self.ecs_id,
                forall|j: int|
                    0 <= j < i ==> #[trigger] list@[1 + j] == EntityId::of_key(
                        entity_keys@[j],
                    ).store(),
            decreases entity_keys@.len() - i,
        {
            list.push(EntityId::from_key(entity_keys[i]).origin());
            i = i + 1;
        }
        let component_keys = keys_of(&self.components);
        let ghost n = entity_keys@.len() as int;
        let mut i: usize = 0;
        while i < component_keys.len()
            invariant
                i <= component_keys@.len(),
                n == entity_keys@.len(),
                list@.len() == 1 + n + i,
                list@[0] == self.ecs_id,
                forall|j: int|
                    0 <= j < n ==> #[trigger] list@[1 + j] == EntityId::of_key(
                        entity_keys@[j],
                    ).store(),
                forall|j: int|
                    0 <= j < i ==> #[trigger] list@[1 + n + j] == ComponentId::of_key(
                        component_keys@[j],
                    ).store(),
            decreases component_keys@.len() - i,
        {
            list.push(ComponentId::from_key(component_keys[i]).origin());
            i = i + 1;
        }
        proof {
            let v = self@;
            assert forall|store: EcsId| list@.to_set().contains(store) implies v.origins().contains(
                store,
            ) by {
                let at = choose|at: int| 0 <= at < list@.len() && list@[at] == store;
                if 0 < at < 1 + n {
                    let j = at - 1;
                    assert(list@[1 + j] == EntityId::of_key(entity_keys@[j]).store());
                    EntityId::lemma_key_roundtrip(entity_keys@[j]);
                    assert(v.entities.contains_key(EntityId::of_key(entity_keys@[j])));
                } else if at >= 1 + n {
                    let j = at - 1 - n;
                    assert(list@[1 + n + j] == ComponentId::of_key(component_keys@[j]).store());
                    ComponentId::lemma_key_roundtrip(component_keys@[j]);
                    assert(v.components.contains_key(ComponentId::of_key(component_keys@[j])));
                }
            }
            assert forall|store: EcsId| v.origins().contains(store) implies list@.to_set().contains(
                store,
            ) by {
                if store == v.store {
                    assert(list@[0] == store);
                } else if exists|entity: EntityId| #[trigger]
                    v.entities.contains_key(entity) && entity.store() == store {
                    let entity = choose|entity: EntityId| #[trigger]
                        v.entities.contains_key(entity) && entity.store() == store;
                    let j = choose|j: int|
                        0 <= j < entity_keys@.len() && entity_keys@[j] == entity.key();
                    EntityId::lemma_of_key_key(entity);
                    assert(list@[1 + j] == store);
                } else {
                    let component = choose|component: ComponentId| #[trigger]
                        v.components.contains_key(component) && component.store() == store;
                    let j = choose|j: int|
                        0 <= j < component_keys@.len() && component_keys@[j] == component.key();
                    ComponentId::lemma_of_key_key(component);
                    assert(list@[1 + n + j] == store);
                }
            }
        }
        list
    }

    /// Returns true if this store and `other` hold identifiers made by one
    /// and the same store, or are that store. Stores of which this is false
    /// merge into a consistent store.
    pub fn shares_origin_with(&self, other: &Ecs) -> (shared: bool)
        ensures
            shared == !self@.origins().disjoint(other@.origins()),
    {
        let mine = self.origin_list();
        let theirs = other.origin_list();
        let mut i: usize = 0;
        while i < mine.len()
            invariant
                i <= mine@.len(),
                mine@.to_set() == self@.origins(),
                theirs@.to_set() == other@.origins(),
                forall|a: int, b: int|
                    0 <= a < i && 0 <= b < theirs@.len() ==> mine@[a] != theirs@[b],
            decreases mine@.len() - i,
        {
            let mut j: usize = 0;
            while j < theirs.len()
                invariant
                    i < mine@.len(),
                    j <= theirs@.len(),
                    mine@.to_set() == self@.origins(),
                    theirs@.to_set() == other@.origins(),
                    forall|b: int| 0 <= b < j ==> mine@[i as int] != theirs@[b],
                decreases theirs@.len() - j,
            {
                if mine[i] == theirs[j] {
                    proof {
                        assert(mine@.to_set().contains(mine@[i as int]));
                    }
                    return true;
                }
                j = j + 1;
            }
            i = i + 1;
        }
        false
    }

    /// Merge another store into this one: every entity and component of
    /// `other` moves here under its own identifier.
    ///
    /// This is particularly useful when code that holds borrows on this
    /// store needs to add a new entity. It can fill a new, empty store
    /// instead, which is merged in once the borrows have ended.
    ///
    /// Merging a store without entities changes nothing.
    pub fn merge(&mut self, other: Ecs)
        ensures
            final(self)@ == if other@.entities.dom().is_empty() {
                old(self)@
            } else {
                old(self)@.merged(other@)
            },
            old(self).wf() && other.wf() ==> final(self)@ == old(self)@.merged(other@),
            !other@.entities.dom().is_empty() ==> final(self)@.keeps_rows_of(other@),
            final(self)@.origins().subset_of(old(self)@.origins().union(other@.origins())),
            forall|component: ComponentId|
                #![trigger final(self)@.components[component]]
                old(self)@.components.contains_key(component) && !other@.components.contains_key(
                    component,
                ) ==> final(self)@.components.contains_key(component)
                    && final(self)@.components[component] == old(self)@.components[component],
            old(self).wf() && other.wf() && old(self)@.origins().disjoint(other@.origins())
                ==> final(self).wf() && final(self)@.keeps_rows_of(old(self)@),
    {
        proof {
            lemma_entity_table_finite(other.entities@);
            lemma_origins_of_merge(old(self)@, other@);
            assert(old(self)@.origins().subset_of(old(self)@.origins().union(other@.origins())));
            if other.wf() {
                if old(self).wf() && old(self)@.origins().disjoint(other@.origins()) {
                    lemma_merge_consistent(old(self)@, other@);
                }
            }
        }
        if other.entities.len() == 0 {
            return ;
        }
        absorb(&mut self.components, other.components);
        absorb(&mut self.entities, other.entities);
    }
}

} // verus!
