//! The two tables of a store as the machine keeps them, by packed key, and
//! what they are in the model, by identifier.

use crate::ids::{ComponentId, EntityId};
use crate::slots::ComponentMap;
use crate::store::ComponentEntry;
use crate::view::ComponentInfo;
use std::any::TypeId;
use std::collections::HashMap;
use vstd::prelude::*;
use vstd::set_lib::*;
use vstd::std_specs::iter::IteratorSpec;

verus! {

/// The entity table as the model has it: by entity, not by key.
pub(crate) open spec fn entity_table(raw: Map<u128, ComponentMap>) -> Map<
    EntityId,
    Map<TypeId, ComponentId>,
> {
    Map::new(
        |entity: EntityId| raw.contains_key(entity.key()),
        |entity: EntityId| raw[entity.key()]@,
    )
}

/// The component table as the model has it: by component, not by key, and
/// without the values.
pub(crate) open spec fn component_table(raw: Map<u128, ComponentEntry>) -> Map<
    ComponentId,
    ComponentInfo,
> {
    Map::new(
        |component: ComponentId| raw.contains_key(component.key()),
        |component: ComponentId| raw[component.key()].info(),
    )
}

pub(crate) proof fn lemma_entity_table_insert(
    raw: Map<u128, ComponentMap>,
    entity: EntityId,
    slots: ComponentMap,
)
    ensures
        entity_table(raw.insert(entity.key(), slots)) == entity_table(raw).insert(entity, slots@),
{
    assert forall|other: EntityId| other.key() == entity.key() implies other == entity by {
        EntityId::lemma_key_injective(other, entity);
    }
}

pub(crate) proof fn lemma_entity_table_remove(raw: Map<u128, ComponentMap>, entity: EntityId)
    ensures
        entity_table(raw.remove(entity.key())) == entity_table(raw).remove(entity),
{
    assert forall|other: EntityId| other.key() == entity.key() implies other == entity by {
        EntityId::lemma_key_injective(other, entity);
    }
}

pub(crate) proof fn lemma_entity_table_finite(raw: Map<u128, ComponentMap>)
    requires
        raw.dom().finite(),
    ensures
        entity_table(raw).dom().finite(),
        entity_table(raw).dom().len() == raw.dom().len(),
{
    let of_key = |key: u128| EntityId::of_key(key);
    assert(vstd::relations::injective_on(of_key, raw.dom())) by {
        assert forall|a: u128, b: u128|
            raw.dom().contains(a) && raw.dom().contains(b) && #[trigger] of_key(a)
                == #[trigger] of_key(b) implies a == b by {
            EntityId::lemma_key_roundtrip(a);
            EntityId::lemma_key_roundtrip(b);
        }
    }
    assert(raw.dom().map(of_key) =~= entity_table(raw).dom()) by {
        assert forall|entity: EntityId| raw.dom().map(of_key).contains(
            entity,
        ) implies entity_table(raw).dom().contains(entity) by {
            let key = choose|key: u128| raw.dom().contains(key) && of_key(key) == entity;
            EntityId::lemma_key_roundtrip(key);
        }
        assert forall|entity: EntityId| entity_table(raw).dom().contains(
            entity,
        ) implies raw.dom().map(of_key).contains(entity) by {
            EntityId::lemma_of_key_key(entity);
        }
    }
    lemma_map_size(raw.dom(), entity_table(raw).dom(), of_key);
}

pub(crate) proof fn lemma_component_table_insert(
    raw: Map<u128, ComponentEntry>,
    component: ComponentId,
    entry: ComponentEntry,
)
    ensures
        component_table(raw.insert(component.key(), entry)) == component_table(raw).insert(
            component,
            entry.info(),
        ),
{
    assert forall|other: ComponentId| other.key() == component.key() implies other
        == component by {
        ComponentId::lemma_key_injective(other, component);
    }
}

pub(crate) proof fn lemma_component_table_remove(
    raw: Map<u128, ComponentEntry>,
    component: ComponentId,
)
    ensures
        component_table(raw.remove(component.key())) == component_table(raw).remove(component),
{
    assert forall|other: ComponentId| other.key() == component.key() implies other
        == component by {
        ComponentId::lemma_key_injective(other, component);
    }
}

pub(crate) proof fn lemma_component_table_finite(raw: Map<u128, ComponentEntry>)
    requires
        raw.dom().finite(),
    ensures
        component_table(raw).dom().finite(),
        component_table(raw).dom().len() == raw.dom().len(),
{
    let of_key = |key: u128| ComponentId::of_key(key);
    assert(vstd::relations::injective_on(of_key, raw.dom())) by {
        assert forall|a: u128, b: u128|
            raw.dom().contains(a) && raw.dom().contains(b) && #[trigger] of_key(a)
                == #[trigger] of_key(b) implies a == b by {
            ComponentId::lemma_key_roundtrip(a);
            ComponentId::lemma_key_roundtrip(b);
        }
    }
    assert(raw.dom().map(of_key) =~= component_table(raw).dom()) by {
        assert forall|component: ComponentId| raw.dom().map(of_key).contains(
            component,
        ) implies component_table(raw).dom().contains(component) by {
            let key = choose|key: u128| raw.dom().contains(key) && of_key(key) == component;
            ComponentId::lemma_key_roundtrip(key);
        }
        assert forall|component: ComponentId| component_table(raw).dom().contains(
            component,
        ) implies raw.dom().map(of_key).contains(component) by {
            ComponentId::lemma_of_key_key(component);
        }
    }
    lemma_map_size(raw.dom(), component_table(raw).dom(), of_key);
}

/// The keys of a table, each once, in the order in which the table hands
/// them out.
pub(crate) fn keys_of<V>(table: &HashMap<u128, V>) -> (keys: Vec<u128>)
    ensures
        keys@.no_duplicates(),
        keys@.to_set() == table@.dom(),
{
    let mut keys: Vec<u128> = Vec::new();
    let ghost all: Seq<u128> = table.keys().remaining().unref();
    for key in it: table.keys()
        invariant
            keys@.len() == it.index(),
            it.seq().unref() == all,
            forall|j: int| 0 <= j < keys@.len() ==> keys@[j] == all[j],
            all.no_duplicates(),
            all.to_set() == table@.dom(),
    {
        keys.push(*key);
    }
    proof {
        assert(keys@ =~= all);
    }
    keys
}

/// Moves every entry of `source` into `target`. Where both hold a key, the
/// entry of `source` takes the place of the one in `target`.
pub(crate) fn absorb<V>(target: &mut HashMap<u128, V>, source: HashMap<u128, V>)
    ensures
        final(target)@ == old(target)@.union_prefer_right(source@),
{
    let mut rest = source;
    let keys = keys_of(&rest);
    let ghost before = target@;
    let mut i: usize = 0;
    while i < keys.len()
        invariant
            i <= keys@.len(),
            keys@.no_duplicates(),
            keys@.to_set() == source@.dom(),
            before == old(target)@,
            forall|key: u128| #[trigger]
                rest@.contains_key(key) <==> exists|j: int|
                    i <= j < keys@.len() && keys@[j] == key,
            forall|key: u128| #[trigger] rest@.contains_key(key) ==> rest@[key] == source@[key],
            forall|key: u128| #[trigger]
                target@.contains_key(key) <==> before.contains_key(key) || exists|j: int|
                    0 <= j < i && keys@[j] == key,
            forall|j: int|
                0 <= j < i ==> target@.contains_key(#[trigger] keys@[j]) && target@[keys@[j]]
                    == source@[keys@[j]],
            forall|key: u128|
                before.contains_key(key) && !(exists|j: int| 0 <= j < i && keys@[j] == key)
                    ==> #[trigger] target@[key] == before[key],
        decreases keys@.len() - i,
    {
        let key = keys[i];
        match rest.remove(&key) {
            Some(value) => {
                target.insert(key, value);
            },
            None => {},
        }
        i = i + 1;
    }
}

} // verus!
