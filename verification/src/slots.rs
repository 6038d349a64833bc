//! The components of one entity, by type.
//!
//! A hash map keyed by `TypeId` would serve as well when the program runs,
//! but vstd says what a hash map holds only for keys whose hashing it knows,
//! and `TypeId` is none of them: nothing could be proved of such a map. An
//! entity has few components, so the pairs are kept in a vector and searched.

use crate::erased::same_type;
use crate::ids::ComponentId;
use std::any::TypeId;
use vstd::prelude::*;

verus! {

/// Maps each type that an entity has a component of to that component.
///
/// The pairs are kept in the order in which the types were first set; no
/// type occurs twice.
pub struct ComponentMap {
    slots: Vec<(TypeId, ComponentId)>,
}

/// No type occurs twice among the pairs.
pub open spec fn distinct_types(pairs: Seq<(TypeId, ComponentId)>) -> bool {
    forall|i: int, j: int| 0 <= i < j < pairs.len() ==> pairs[i].0 != pairs[j].0
}

/// The position of a type among the pairs, where it has one.
pub open spec fn position_of(pairs: Seq<(TypeId, ComponentId)>, tag: TypeId) -> int {
    choose|i: int| 0 <= i < pairs.len() && pairs[i].0 == tag
}

/// The map that the pairs spell out.
pub open spec fn as_map(pairs: Seq<(TypeId, ComponentId)>) -> Map<TypeId, ComponentId> {
    Map::new(
        |tag: TypeId| exists|i: int| 0 <= i < pairs.len() && #[trigger] pairs[i].0 == tag,
        |tag: TypeId| pairs[position_of(pairs, tag)].1,
    )
}

/// Each pair is an entry of the map, and each entry of the map is a pair.
pub open spec fn spelled_out(
    pairs: Seq<(TypeId, ComponentId)>,
    map: Map<TypeId, ComponentId>,
) -> bool {
    &&& distinct_types(pairs)
    &&& forall|i: int|
        0 <= i < pairs.len() ==> map.contains_key(#[trigger] pairs[i].0) && map[pairs[i].0]
            == pairs[i].1
    &&& forall|tag: TypeId| #[trigger]
        map.contains_key(tag) ==> 0 <= position_of(pairs, tag) < pairs.len() && pairs[position_of(
            pairs,
            tag,
        )] == (tag, map[tag])
    &&& map.dom().finite()
    &&& map.dom().len() == pairs.len()
}

/// Pairs with distinct types spell out the map made of them.
pub proof fn lemma_spelled_out(pairs: Seq<(TypeId, ComponentId)>)
    requires
        distinct_types(pairs),
    ensures
        spelled_out(pairs, as_map(pairs)),
{
    let map = as_map(pairs);
    let tags = pairs.map_values(|p: (TypeId, ComponentId)| p.0);
    assert(tags.to_set() =~= map.dom()) by {
        assert forall|tag: TypeId| map.dom().contains(tag) implies tags.to_set().contains(tag) by {
            let i = position_of(pairs, tag);
            assert(tags[i] == tag);
        }
    }
    tags.unique_seq_to_set();
}

impl ComponentMap {
    #[verifier::type_invariant]
    spec fn no_type_twice(self) -> bool {
        distinct_types(self.slots@)
    }

    /// The pairs, in the order in which they are kept.
    pub closed spec fn pairs(&self) -> Seq<(TypeId, ComponentId)> {
        self.slots@
    }

    /// The map from each type to its component.
    pub closed spec fn view(&self) -> Map<TypeId, ComponentId> {
        as_map(self.slots@)
    }

    /// A map without entries.
    pub fn new() -> (slots: Self)
        ensures
            slots@ == Map::<TypeId, ComponentId>::empty(),
    {
        let slots = ComponentMap { slots: Vec::new() };
        slots
    }

    /// The number of entries. The pairs counted are the entries of the map.
    pub fn len(&self) -> (n: usize)
        ensures
            n == self.pairs().len(),
            spelled_out(self.pairs(), self@),
    {
        proof {
            use_type_invariant(self);
            lemma_spelled_out(self.slots@);
        }
        self.slots.len()
    }

    /// The component at a position.
    pub fn id_at(&self, i: usize) -> (id: ComponentId)
        requires
            i < self.pairs().len(),
        ensures
            id == self.pairs()[i as int].1,
    {
        self.slots[i].1
    }

    /// The component of the given type, if there is one.
    pub fn get(&self, tag: &TypeId) -> (found: Option<ComponentId>)
        ensures
            found == if self@.contains_key(*tag) {
                Some(self@[*tag])
            } else {
                None::<ComponentId>
            },
    {
        proof {
            use_type_invariant(self);
            lemma_spelled_out(self.slots@);
        }
        let mut i: usize = 0;
        while i < self.slots.len()
            invariant
                i <= self.slots@.len(),
                spelled_out(self.slots@, self@),
                forall|j: int| 0 <= j < i ==> self.slots@[j].0 != *tag,
            decreases self.slots@.len() - i,
        {
            if same_type(&self.slots[i].0, tag) {
                return Some(self.slots[i].1);
            }
            i = i + 1;
        }
        None
    }

    /// Whether the given component is among the entries.
    pub fn holds(&self, id: ComponentId) -> (held: bool)
        ensures
            held == self@.contains_value(id),
    {
        proof {
            use_type_invariant(self);
            lemma_spelled_out(self.slots@);
        }
        let mut i: usize = 0;
        while i < self.slots.len()
            invariant
                i <= self.slots@.len(),
                spelled_out(self.slots@, self@),
                forall|j: int| 0 <= j < i ==> self.slots@[j].1 != id,
            decreases self.slots@.len() - i,
        {
            if self.slots[i].1 == id {
                assert(self@.contains_key(self.slots@[i as int].0));
                return true;
            }
            i = i + 1;
        }
        assert forall|tag: TypeId| self@.contains_key(tag) implies self@[tag] != id by {
            let j = position_of(self.slots@, tag);
        }
        false
    }

    /// Sets the component of the given type and gives back the one it had.
    pub fn insert(&mut self, tag: TypeId, id: ComponentId) -> (previous: Option<ComponentId>)
        ensures
            final(self)@ == old(self)@.insert(tag, id),
            previous == if old(self)@.contains_key(tag) {
                Some(old(self)@[tag])
            } else {
                None::<ComponentId>
            },
    {
        proof {
            use_type_invariant(&*self);
            lemma_spelled_out(self.slots@);
        }
        let mut pairs: Vec<(TypeId, ComponentId)> = Vec::new();
        std::mem::swap(&mut self.slots, &mut pairs);
        let ghost before = pairs@;
        let ghost old_map = as_map(before);
        let mut previous: Option<ComponentId> = None;
        let mut i: usize = 0;
        while i < pairs.len()
            invariant_except_break
                i <= pairs@.len(),
                pairs@ == before,
                previous is None,
                forall|j: int| 0 <= j < i ==> before[j].0 != tag,
            invariant
                spelled_out(before, old_map),
            ensures
                i <= before.len(),
                i < before.len() ==> pairs@ == before.update(i as int, (tag, id))
                    && before[i as int].0 == tag && previous == Some(before[i as int].1),
                i == before.len() ==> pairs@ == before && previous is None && (forall|j: int|
                    0 <= j < before.len() ==> before[j].0 != tag),
            decreases pairs@.len() - i,
        {
            if same_type(&pairs[i].0, &tag) {
                previous = Some(pairs[i].1);
                pairs.set(i, (tag, id));
                break ;
            }
            i = i + 1;
        }
        if previous.is_none() {
            pairs.push((tag, id));
        }
        proof {
            let after = pairs@;
            lemma_spelled_out(after);
            let new_map = as_map(after);
            assert(new_map =~= old_map.insert(tag, id)) by {
                assert forall|t: TypeId| old_map.insert(tag, id).contains_key(
                    t,
                ) implies new_map.contains_key(t) && new_map[t] == old_map.insert(tag, id)[t] by {
                    if t == tag {
                        if i < before.len() {
                            assert(after[i as int].0 == t);
                        } else {
                            assert(after[before.len() as int].0 == t);
                        }
                    } else {
                        let j = position_of(before, t);
                        assert(after[j] == before[j]);
                    }
                }
            }
        }
        self.slots = pairs;
        previous
    }
}

} // verus!
