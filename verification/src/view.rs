//! What a store is, told without its representation: two tables and two
//! counters, what holds between them at all times, and what each operation of the
//! store makes of them.

use crate::erased::Erased;
use crate::error::EcsError;
use crate::ids::{ComponentId, EcsId, EntityId};
use std::any::TypeId;
use std::cell::RefCell;
use vstd::prelude::*;
use vstd::set_lib::*;

verus! {

/// What the component table keeps for one component: its owner, the type
/// of its value, and the cell that the value lives in. The value itself is
/// no part of it: it changes behind the cell while the table stands as it is.
pub struct ComponentInfo {
    /// The entity that the component is attached to.
    pub parent: EntityId,
    /// The runtime type of the component's value.
    pub tag: TypeId,
    /// The cell that holds the component's value.
    pub cell: RefCell<Erased>,
}

/// The tables and counters of a store.
#[verifier::ext_equal]
pub struct EcsView {
    /// The store's own identifier.
    pub store: EcsId,
    /// The number that the next entity made by the store gets.
    pub next_entity: nat,
    /// The number that the next component made by the store gets.
    pub next_component: nat,
    /// Each entity with its components by type.
    pub entities: Map<EntityId, Map<TypeId, ComponentId>>,
    /// Each component with its owner, its type and its cell.
    pub components: Map<ComponentId, ComponentInfo>,
}

impl EcsView {
    /// A store with the given identifier and nothing in it.
    pub open spec fn empty(store: EcsId) -> EcsView {
        EcsView {
            store,
            next_entity: 0,
            next_component: 0,
            entities: Map::empty(),
            components: Map::empty(),
        }
    }

    /// The component of the given type on the given entity, if the entity
    /// exists and has one.
    pub open spec fn slot(self, entity: EntityId, tag: TypeId) -> Option<ComponentId> {
        if self.entities.contains_key(entity) && self.entities[entity].contains_key(tag) {
            Some(self.entities[entity][tag])
        } else {
            None
        }
    }

    /// What a search for the component of the given type on the given entity
    /// finds: the component or none, and an error where there is no such
    /// entity.
    pub open spec fn find(self, entity: EntityId, tag: TypeId) -> Result<
        Option<ComponentId>,
        EcsError,
    > {
        if self.entities.contains_key(entity) {
            Ok(self.slot(entity, tag))
        } else {
            Err(EcsError::EntityNotFound(entity))
        }
    }

    /// The component of the given type on the given entity, and an error
    /// where there is no such entity or no such component on it.
    pub open spec fn lookup(self, entity: EntityId, tag: TypeId) -> Result<ComponentId, EcsError> {
        match self.find(entity, tag) {
            Ok(Some(component)) => Ok(component),
            Ok(None) => Err(EcsError::ComponentTypeNotFound(entity)),
            Err(error) => Err(error),
        }
    }

    /// The owner of the given component, and an error where there is no such
    /// component.
    pub open spec fn parent_of(self, component: ComponentId) -> Result<EntityId, EcsError> {
        if self.components.contains_key(component) {
            Ok(self.components[component].parent)
        } else {
            Err(EcsError::ComponentNotFound(component))
        }
    }

    /// Whether the given component is of the given type, and an error where
    /// there is no such component.
    pub open spec fn is_of_type(self, component: ComponentId, tag: TypeId) -> Result<
        bool,
        EcsError,
    > {
        if self.components.contains_key(component) {
            Ok(self.components[component].tag == tag)
        } else {
            Err(EcsError::ComponentNotFound(component))
        }
    }

    /// Whether the given entity lists the given component, and an error
    /// where there is no such entity.
    pub open spec fn is_attached(self, entity: EntityId, component: ComponentId) -> Result<
        bool,
        EcsError,
    > {
        if self.entities.contains_key(entity) {
            Ok(self.entities[entity].contains_value(component))
        } else {
            Err(EcsError::EntityNotFound(entity))
        }
    }

    /// What an attempt to reach the value of the given component as a value
    /// of the given type can end in. A component that is not there is not
    /// found. Else the cell is asked for a guard, and refuses or grants it
    /// as the guards alive at that moment demand; a granted guard is kept
    /// where the component is of the type, and given up for a type mismatch
    /// where it is not.
    pub open spec fn access_outcome<V>(
        self,
        component: ComponentId,
        tag: TypeId,
        outcome: Result<V, EcsError>,
    ) -> bool {
        if !self.components.contains_key(component) {
            outcome == Err::<V, EcsError>(EcsError::ComponentNotFound(component))
        } else if self.components[component].tag == tag {
            outcome is Ok || outcome == Err::<V, EcsError>(EcsError::BorrowError(component))
        } else {
            outcome == Err::<V, EcsError>(EcsError::BorrowError(component)) || outcome == Err::<
                V,
                EcsError,
            >(EcsError::ComponentTypeMismatch(component))
        }
    }

    /// What an attempt to reach the value of the component of the given type
    /// on the given entity can end in: the error of the lookup where that
    /// fails, and else what the attempt on the component found ends in.
    pub open spec fn access_outcome_on<V>(
        self,
        entity: EntityId,
        tag: TypeId,
        outcome: Result<V, EcsError>,
    ) -> bool {
        match self.lookup(entity, tag) {
            Ok(component) => self.access_outcome(component, tag, outcome),
            Err(error) => outcome == Err::<V, EcsError>(error),
        }
    }

    /// Every component that an entity lists is in the component table, as a
    /// component of that entity and of the listed type.
    pub open spec fn slots_are_backed(self) -> bool {
        forall|entity: EntityId, tag: TypeId| #[trigger]
            self.slot(entity, tag) is Some ==> {
                let component = self.slot(entity, tag)->0;
                &&& self.components.contains_key(component)
                &&& self.components[component].parent == entity
                &&& self.components[component].tag == tag
            }
    }

    /// Every component in the component table is listed by its owner under
    /// its type.
    pub open spec fn components_are_listed(self) -> bool {
        forall|component: ComponentId| #[trigger]
            self.components.contains_key(component) ==> self.slot(
                self.components[component].parent,
                self.components[component].tag,
            ) == Some(component)
    }

    /// The numbers of the store's own identifiers lie below its counters, so
    /// the next identifier it makes is new.
    pub open spec fn counters_are_ahead(self) -> bool {
        &&& self.next_entity <= u64::MAX
        &&& self.next_component <= u64::MAX
        &&& forall|entity: EntityId| #[trigger]
            self.entities.contains_key(entity) && entity.store() == self.store ==> entity.seq()
                < self.next_entity
        &&& forall|component: ComponentId| #[trigger]
            self.components.contains_key(component) && component.store() == self.store
                ==> component.seq() < self.next_component
    }

    /// The tables are finite.
    pub open spec fn finite(self) -> bool {
        &&& self.entities.dom().finite()
        &&& self.components.dom().finite()
    }

    /// What holds of every store at all times.
    pub open spec fn consistent(self) -> bool {
        &&& self.finite()
        &&& self.slots_are_backed()
        &&& self.components_are_listed()
        &&& self.counters_are_ahead()
    }

    /// The stores whose identifiers occur in this one, itself included.
    pub open spec fn origins(self) -> Set<EcsId> {
        Set::new(
            |store: EcsId|
                store == self.store || (exists|entity: EntityId| #[trigger]
                    self.entities.contains_key(entity) && entity.store() == store) || (
                exists|component: ComponentId| #[trigger]
                    self.components.contains_key(component) && component.store() == store),
        )
    }

    /// The components of the given type.
    pub open spec fn components_of(self, tag: TypeId) -> Set<ComponentId> {
        Set::new(
            |component: ComponentId|
                self.components.contains_key(component) && self.components[component].tag == tag,
        )
    }

    /// The entities that hold a component of the given type.
    pub open spec fn entities_with(self, tag: TypeId) -> Set<EntityId> {
        Set::new(
            |entity: EntityId|
                self.entities.contains_key(entity) && self.entities[entity].contains_key(tag),
        )
    }

    /// The components attached to the given entity.
    pub open spec fn components_on(self, entity: EntityId) -> Set<ComponentId> {
        Set::new(
            |component: ComponentId|
                self.components.contains_key(component) && self.components[component].parent
                    == entity,
        )
    }

    /// The entity that the store makes next.
    pub open spec fn next_entity_id(self) -> EntityId {
        EntityId::at(self.store, self.next_entity)
    }

    /// The component that the store makes next.
    pub open spec fn next_component_id(self) -> ComponentId {
        ComponentId::at(self.store, self.next_component)
    }

    /// The store after it has made a new entity.
    pub open spec fn with_new_entity(self) -> EcsView {
        EcsView {
            next_entity: self.next_entity + 1,
            entities: self.entities.insert(self.next_entity_id(), Map::empty()),
            ..self
        }
    }

    /// The store without the given entity and without the components that
    /// were attached to it.
    pub open spec fn without_entity(self, entity: EntityId) -> EcsView {
        EcsView {
            entities: self.entities.remove(entity),
            components: self.components.remove_keys(self.components_on(entity)),
            ..self
        }
    }

    /// The store after it has made a new component for the given type of
    /// the given entity, with its value in the given cell.
    pub open spec fn with_new_component(
        self,
        entity: EntityId,
        tag: TypeId,
        cell: RefCell<Erased>,
    ) -> EcsView {
        EcsView {
            next_component: self.next_component + 1,
            entities: self.entities.insert(
                entity,
                self.entities[entity].insert(tag, self.next_component_id()),
            ),
            components: self.components.insert(
                self.next_component_id(),
                ComponentInfo { parent: entity, tag, cell },
            ),
            ..self
        }
    }

    /// The component that holds the value once a value of the given type has
    /// been set on the given entity: the one that is there, or else the next
    /// one that the store makes.
    pub open spec fn set_target(self, entity: EntityId, tag: TypeId) -> ComponentId {
        match self.slot(entity, tag) {
            Some(component) => component,
            None => self.next_component_id(),
        }
    }

    /// The store after a value of the given type has been set on the given
    /// entity: as it was where the entity has a component of the type, with
    /// a new component in the given cell where it has none.
    pub open spec fn after_set(
        self,
        entity: EntityId,
        tag: TypeId,
        cell: RefCell<Erased>,
    ) -> EcsView {
        match self.slot(entity, tag) {
            Some(_) => self,
            None => self.with_new_component(entity, tag, cell),
        }
    }

    /// The store after it has taken in all of another one. Where both hold
    /// an identifier, the other's entry stands.
    pub open spec fn merged(self, other: EcsView) -> EcsView {
        EcsView {
            entities: self.entities.union_prefer_right(other.entities),
            components: self.components.union_prefer_right(other.components),
            ..self
        }
    }

    /// Every component of `earlier` that this store holds has its row as it
    /// was there: the same owner, the same type, and the same cell.
    pub open spec fn keeps_rows_of(self, earlier: EcsView) -> bool {
        forall|component: ComponentId|
            #![trigger self.components[component]]
            self.components.contains_key(component) && earlier.components.contains_key(component)
                ==> self.components[component] == earlier.components[component]
    }

    /// The two stores hold no identifier in common.
    pub open spec fn shares_no_id_with(self, other: EcsView) -> bool {
        &&& self.entities.dom().disjoint(other.entities.dom())
        &&& self.components.dom().disjoint(other.components.dom())
    }
}

/// Making an entity keeps the store consistent; the new entity was not there
/// before and has no components.
pub proof fn lemma_new_entity(v: EcsView)
    requires
        v.consistent(),
        v.next_entity < u64::MAX,
    ensures
        !v.entities.contains_key(v.next_entity_id()),
        v.with_new_entity().consistent(),
        v.with_new_entity().entities[v.next_entity_id()] == Map::<TypeId, ComponentId>::empty(),
        v.with_new_entity().components == v.components,
{
    let w = v.with_new_entity();
    EntityId::lemma_at(v.store, v.next_entity);
    assert forall|entity: EntityId, tag: TypeId| #[trigger] w.slot(entity, tag) is Some implies {
        &&& w.components.contains_key(w.slot(entity, tag)->0)
        &&& w.components[w.slot(entity, tag)->0].parent == entity
        &&& w.components[w.slot(entity, tag)->0].tag == tag
    } by {
        assert(v.slot(entity, tag) is Some);
    }
}

/// Removing an entity removes every component that was attached to it and
/// nothing else, and keeps the store consistent.
pub proof fn lemma_remove_entity(v: EcsView, entity: EntityId)
    requires
        v.consistent(),
        v.entities.contains_key(entity),
    ensures
        ({
            let w = v.without_entity(entity);
            &&& !w.entities.contains_key(entity)
            &&& forall|tag: TypeId| #[trigger]
                v.entities[entity].contains_key(tag) ==> !w.components.contains_key(
                    v.entities[entity][tag],
                )
            &&& forall|component: ComponentId| #[trigger]
                v.components.contains_key(component) && v.components[component].parent == entity
                    ==> !w.components.contains_key(component)
            &&& forall|component: ComponentId| #[trigger]
                v.components.contains_key(component) && v.components[component].parent != entity
                    ==> w.components.contains_key(component) && w.components[component]
                    == v.components[component]
            &&& w.consistent()
        }),
        v.components_on(entity) == v.entities[entity].values(),
{
    let w = v.without_entity(entity);
    assert(v.components_on(entity) =~= v.entities[entity].values()) by {
        assert forall|component: ComponentId| v.entities[entity].values().contains(
            component,
        ) implies v.components_on(entity).contains(component) by {
            let tag = choose|tag: TypeId|
                v.entities[entity].contains_key(tag) && v.entities[entity][tag] == component;
            assert(v.slot(entity, tag) is Some);
        }
    }
    assert forall|other: EntityId, tag: TypeId| #[trigger] w.slot(other, tag) is Some implies {
        &&& w.components.contains_key(w.slot(other, tag)->0)
        &&& w.components[w.slot(other, tag)->0].parent == other
        &&& w.components[w.slot(other, tag)->0].tag == tag
    } by {
        assert(v.slot(other, tag) is Some);
    }
    assert(w.components.dom().subset_of(v.components.dom()));
}

/// Making a component for a type that an entity has none of keeps the store
/// consistent; the new component was not there before, and the entity then
/// holds it under that type.
pub proof fn lemma_new_component(
    v: EcsView,
    entity: EntityId,
    tag: TypeId,
    cell: RefCell<Erased>,
)
    requires
        v.consistent(),
        v.entities.contains_key(entity),
        !v.entities[entity].contains_key(tag),
        v.next_component < u64::MAX,
    ensures
        !v.components.contains_key(v.next_component_id()),
        v.with_new_component(entity, tag, cell).consistent(),
        v.with_new_component(entity, tag, cell).slot(entity, tag) == Some(v.next_component_id()),
        v.with_new_component(entity, tag, cell).components[v.next_component_id()].cell == cell,
        forall|component: ComponentId| #[trigger]
            v.components.contains_key(component) ==> v.with_new_component(
                entity,
                tag,
                cell,
            ).components[component] == v.components[component],
{
    let w = v.with_new_component(entity, tag, cell);
    ComponentId::lemma_at(v.store, v.next_component);
    assert forall|other: EntityId, t: TypeId| #[trigger] w.slot(other, t) is Some implies {
        &&& w.components.contains_key(w.slot(other, t)->0)
        &&& w.components[w.slot(other, t)->0].parent == other
        &&& w.components[w.slot(other, t)->0].tag == t
    } by {
        if other != entity || t != tag {
            assert(v.slot(other, t) is Some);
        }
    }
}

/// No operation moves a counter back, so a store hands out no identifier
/// twice, even once the entity or component that had it is gone: a new
/// identifier carries the counter's value as its number, and identifiers
/// with different numbers differ.
pub proof fn lemma_counters_never_go_back(
    v: EcsView,
    entity: EntityId,
    tag: TypeId,
    cell: RefCell<Erased>,
    other: EcsView,
)
    ensures
        v.with_new_entity().next_entity == v.next_entity + 1,
        v.with_new_entity().next_component == v.next_component,
        v.with_new_component(entity, tag, cell).next_entity == v.next_entity,
        v.with_new_component(entity, tag, cell).next_component == v.next_component + 1,
        v.after_set(entity, tag, cell).next_entity == v.next_entity,
        v.after_set(entity, tag, cell).next_component >= v.next_component,
        v.without_entity(entity).next_entity == v.next_entity,
        v.without_entity(entity).next_component == v.next_component,
        v.merged(other).next_entity == v.next_entity,
        v.merged(other).next_component == v.next_component,
        forall|earlier: nat, later: nat|
            earlier < later <= u64::MAX ==> #[trigger] EntityId::at(v.store, earlier)
                != #[trigger] EntityId::at(v.store, later),
        forall|earlier: nat, later: nat|
            earlier < later <= u64::MAX ==> #[trigger] ComponentId::at(v.store, earlier)
                != #[trigger] ComponentId::at(v.store, later),
{
    assert forall|earlier: nat, later: nat| earlier < later <= u64::MAX implies #[trigger]
        EntityId::at(v.store, earlier) != #[trigger] EntityId::at(v.store, later) by {
        EntityId::lemma_at(v.store, earlier);
        EntityId::lemma_at(v.store, later);
    }
    assert forall|earlier: nat, later: nat| earlier < later <= u64::MAX implies #[trigger]
        ComponentId::at(v.store, earlier) != #[trigger] ComponentId::at(v.store, later) by {
        ComponentId::lemma_at(v.store, earlier);
        ComponentId::lemma_at(v.store, later);
    }
}

/// Setting a value twice on one entity lands on one component. Once a value
/// of a type has been set on an entity, the entity holds the component that
/// the call gave back; a second call finds that component, gives the same
/// identifier back, and changes nothing in the tables.
pub proof fn lemma_set_keeps_id(
    v: EcsView,
    entity: EntityId,
    tag: TypeId,
    cell: RefCell<Erased>,
    second: RefCell<Erased>,
)
    requires
        v.consistent(),
        v.entities.contains_key(entity),
        v.slot(entity, tag) is None ==> v.next_component < u64::MAX,
    ensures
        ({
            let first = v.set_target(entity, tag);
            let after = v.after_set(entity, tag, cell);
            &&& after.consistent()
            &&& after.find(entity, tag) == Ok::<Option<ComponentId>, EcsError>(Some(first))
            &&& after.set_target(entity, tag) == first
            &&& after.after_set(entity, tag, second) == after
        }),
{
    if v.slot(entity, tag) is None {
        lemma_new_component(v, entity, tag, cell);
    }
}

/// In a consistent store, an attempt to reach the component of a type on an
/// entity that has one is granted or refused by the cell alone: the
/// component is there and is of the type.
pub proof fn lemma_access_on_consistent<V>(
    v: EcsView,
    entity: EntityId,
    tag: TypeId,
    outcome: Result<V, EcsError>,
)
    requires
        v.consistent(),
        v.slot(entity, tag) is Some,
        v.access_outcome_on(entity, tag, outcome),
    ensures
        outcome is Ok || outcome == Err::<V, EcsError>(
            EcsError::BorrowError(v.slot(entity, tag)->0),
        ),
{
}

/// A store with nothing in it holds its own identifier only, and making an
/// entity brings no identifier of another store in.
pub proof fn lemma_origins_of_new_entity(v: EcsView)
    requires
        v.next_entity <= u64::MAX,
    ensures
        EcsView::empty(v.store).origins() == set![v.store],
        v.with_new_entity().origins() == v.origins(),
{
    EntityId::lemma_at(v.store, v.next_entity);
    assert(EcsView::empty(v.store).origins() =~= set![v.store]);
    let w = v.with_new_entity();
    assert(w.origins() =~= v.origins()) by {
        assert forall|store: EcsId| v.origins().contains(store) implies w.origins().contains(
            store,
        ) by {
            if store != v.store && exists|e: EntityId| #[trigger]
                v.entities.contains_key(e) && e.store() == store {
                let e = choose|e: EntityId| #[trigger]
                    v.entities.contains_key(e) && e.store() == store;
                assert(w.entities.contains_key(e));
            }
        }
    }
}

/// Setting a value on an entity of the store, and making a component for
/// it, brings no identifier of another store in.
pub proof fn lemma_origins_of_new_component(
    v: EcsView,
    entity: EntityId,
    tag: TypeId,
    cell: RefCell<Erased>,
)
    requires
        v.next_component <= u64::MAX,
        v.entities.contains_key(entity),
    ensures
        v.with_new_component(entity, tag, cell).origins().subset_of(v.origins()),
        v.after_set(entity, tag, cell).origins().subset_of(v.origins()),
{
    ComponentId::lemma_at(v.store, v.next_component);
    let c = v.with_new_component(entity, tag, cell);
    assert forall|store: EcsId| c.origins().contains(store) implies v.origins().contains(
        store,
    ) by {
        if store != v.store {
            if exists|e: EntityId| #[trigger] c.entities.contains_key(e) && e.store() == store {
                let e = choose|e: EntityId| #[trigger]
                    c.entities.contains_key(e) && e.store() == store;
                assert(v.entities.contains_key(e) || e == entity);
            } else {
                let k = choose|k: ComponentId| #[trigger]
                    c.components.contains_key(k) && k.store() == store;
                assert(v.components.contains_key(k));
            }
        }
    }
}

/// Removing an entity brings no identifier of another store in.
pub proof fn lemma_origins_of_removal(v: EcsView, entity: EntityId)
    ensures
        v.without_entity(entity).origins().subset_of(v.origins()),
{
    let r = v.without_entity(entity);
    assert forall|store: EcsId| r.origins().contains(store) implies v.origins().contains(
        store,
    ) by {
        if store != v.store {
            if exists|e: EntityId| #[trigger] r.entities.contains_key(e) && e.store() == store {
                let e = choose|e: EntityId| #[trigger]
                    r.entities.contains_key(e) && e.store() == store;
                assert(v.entities.contains_key(e));
            } else {
                let k = choose|k: ComponentId| #[trigger]
                    r.components.contains_key(k) && k.store() == store;
                assert(v.components.contains_key(k));
            }
        }
    }
}

/// Taking in another store brings in at most the identifiers that the
/// other store holds. So two stores made under different identifiers stay
/// apart until one takes the other in.
pub proof fn lemma_origins_of_merge(v: EcsView, other: EcsView)
    ensures
        v.merged(other).origins().subset_of(v.origins().union(other.origins())),
{
    let m = v.merged(other);
    assert forall|store: EcsId| m.origins().contains(store) implies v.origins().union(
        other.origins(),
    ).contains(store) by {
        if store != v.store {
            if exists|e: EntityId| #[trigger] m.entities.contains_key(e) && e.store() == store {
                let e = choose|e: EntityId| #[trigger]
                    m.entities.contains_key(e) && e.store() == store;
                assert(v.entities.contains_key(e) || other.entities.contains_key(e));
            } else {
                let k = choose|k: ComponentId| #[trigger]
                    m.components.contains_key(k) && k.store() == store;
                assert(v.components.contains_key(k) || other.components.contains_key(k));
            }
        }
    }
}

/// Taking in a store with nothing in it changes nothing.
pub proof fn lemma_merge_empty(v: EcsView, other: EcsView)
    requires
        other.entities.dom() == Set::<EntityId>::empty(),
        other.components.dom() == Set::<ComponentId>::empty(),
    ensures
        v.merged(other) == v,
{
}

/// Taking in a store that shares no identifier with this one gives the
/// entities and components of both: the counts add up, and each identifier
/// leads to what it led to in the store it came from.
pub proof fn lemma_merge_disjoint(v: EcsView, other: EcsView)
    requires
        v.finite(),
        other.finite(),
        v.shares_no_id_with(other),
    ensures
        ({
            let m = v.merged(other);
            &&& m.finite()
            &&& m.entities.dom().len() == v.entities.dom().len() + other.entities.dom().len()
            &&& m.components.dom().len() == v.components.dom().len()
                + other.components.dom().len()
            &&& forall|entity: EntityId| #[trigger]
                other.entities.contains_key(entity) ==> m.entities.contains_key(entity)
                    && m.entities[entity] == other.entities[entity]
            &&& forall|component: ComponentId| #[trigger]
                other.components.contains_key(component) ==> m.components.contains_key(component)
                    && m.components[component] == other.components[component]
            &&& forall|entity: EntityId| #[trigger]
                v.entities.contains_key(entity) ==> m.entities.contains_key(entity)
                    && m.entities[entity] == v.entities[entity]
            &&& forall|component: ComponentId| #[trigger]
                v.components.contains_key(component) ==> m.components.contains_key(component)
                    && m.components[component] == v.components[component]
            &&& forall|entity: EntityId, tag: TypeId|
                other.entities.contains_key(entity) ==> #[trigger] m.slot(entity, tag)
                    == other.slot(entity, tag)
        }),
{
    let m = v.merged(other);
    assert(m.entities.dom() =~= v.entities.dom().union(other.entities.dom()));
    assert(m.components.dom() =~= v.components.dom().union(other.components.dom()));
    lemma_set_disjoint_lens(v.entities.dom(), other.entities.dom());
    lemma_set_disjoint_lens(v.components.dom(), other.components.dom());
}

/// Taking in a consistent store whose identifiers come from other stores
/// than this one's keeps this one consistent.
pub proof fn lemma_merge_consistent(v: EcsView, other: EcsView)
    requires
        v.consistent(),
        other.consistent(),
        v.origins().disjoint(other.origins()),
    ensures
        v.shares_no_id_with(other),
        v.merged(other).consistent(),
{
    let m = v.merged(other);
    assert forall|entity: EntityId|
        other.entities.contains_key(entity) implies !v.entities.contains_key(entity)
        && entity.store() != v.store by {
        assert(other.origins().contains(entity.store()));
    }
    assert forall|component: ComponentId| other.components.contains_key(
        component,
    ) implies !v.components.contains_key(component) && component.store() != v.store by {
        assert(other.origins().contains(component.store()));
    }
    lemma_merge_disjoint(v, other);
    assert forall|entity: EntityId, tag: TypeId| #[trigger] m.slot(entity, tag) is Some implies {
        &&& m.components.contains_key(m.slot(entity, tag)->0)
        &&& m.components[m.slot(entity, tag)->0].parent == entity
        &&& m.components[m.slot(entity, tag)->0].tag == tag
    } by {
        if !other.entities.contains_key(entity) {
            assert(v.slot(entity, tag) is Some);
        }
    }
}

/// Which entities hold a component of a type does not depend on the order
/// in which values were set: two sets, made in either order and into
/// whatever cells, leave the same holders of every type.
pub proof fn lemma_holders_whatever_the_order(
    v: EcsView,
    first: (EntityId, TypeId),
    second: (EntityId, TypeId),
    cells: (RefCell<Erased>, RefCell<Erased>),
    other_cells: (RefCell<Erased>, RefCell<Erased>),
    tag: TypeId,
)
    requires
        v.entities.contains_key(first.0),
        v.entities.contains_key(second.0),
    ensures
        v.after_set(first.0, first.1, cells.0).after_set(
            second.0,
            second.1,
            cells.1,
        ).entities_with(tag) == v.after_set(second.0, second.1, other_cells.0).after_set(
            first.0,
            first.1,
            other_cells.1,
        ).entities_with(tag),
{
    let one = v.after_set(first.0, first.1, cells.0).after_set(second.0, second.1, cells.1);
    let two = v.after_set(second.0, second.1, other_cells.0).after_set(
        first.0,
        first.1,
        other_cells.1,
    );
    assert forall|entity: EntityId| one.entities_with(tag).contains(entity)
        == two.entities_with(tag).contains(entity) by {
        let holds = v.entities.contains_key(entity) && (v.entities[entity].contains_key(tag) || (
        entity == first.0 && tag == first.1) || (entity == second.0 && tag == second.1));
        assert(one.entities_with(tag).contains(entity) == holds);
        assert(two.entities_with(tag).contains(entity) == holds);
    }
    assert(one.entities_with(tag) =~= two.entities_with(tag));
}

/// There are as many components of a type as there are entities that hold a
/// component of that type.
pub proof fn lemma_one_component_per_holder(v: EcsView, tag: TypeId)
    requires
        v.consistent(),
    ensures
        v.components_of(tag).finite(),
        v.entities_with(tag).finite(),
        v.components_of(tag).len() == v.entities_with(tag).len(),
{
    let owner = |component: ComponentId| v.components[component].parent;
    let of_type = v.components_of(tag);
    let holders = v.entities_with(tag);
    assert(of_type.subset_of(v.components.dom()));
    assert(of_type.map(owner) =~= holders) by {
        assert forall|entity: EntityId| holders.contains(entity) implies of_type.map(
            owner,
        ).contains(entity) by {
            assert(v.slot(entity, tag) is Some);
            let component = v.entities[entity][tag];
            assert(of_type.contains(component) && owner(component) == entity);
        }
    }
    lemma_map_size(of_type, holders, owner);
}

} // verus!
