use better_ecs::{ComponentId, ComponentRef, Ecs, EcsError, EntityId};
use std::collections::HashSet;
use std::ops::Add;

#[derive(Copy, Clone, PartialEq, Debug)]
struct Vector2 {
    x: f32,
    y: f32,
}

impl Vector2 {
    fn new(x: f32, y: f32) -> Self {
        Vector2 { x, y }
    }
}

impl Add for Vector2 {
    type Output = Vector2;

    fn add(self, other: Vector2) -> Vector2 {
        Vector2::new(self.x + other.x, self.y + other.y)
    }
}

#[derive(Copy, Clone, PartialEq, Debug)]
struct Position(Vector2);

#[derive(Copy, Clone, PartialEq, Debug)]
struct Velocity(Vector2);

#[derive(Clone, PartialEq, Debug)]
struct Name(String);

fn update_position(pos: &Position, vel: &Velocity) -> Position {
    Position(pos.0 + vel.0)
}

#[test]
fn test_update() {
    let a_start = Vector2::new(1., 3.);
    let b_start = Vector2::new(-3., 4.);
    let c_start = Vector2::new(-0., 1.3);
    let a_vel = Vector2::new(0., 2.);
    let b_vel = Vector2::new(1., 9.);
    let mut ecs = Ecs::new();
    let a = ecs.create_entity();
    let b = ecs.create_entity();
    let c = ecs.create_entity();
    let _ = ecs.set(a, Position(a_start));
    let _ = ecs.set(a, Velocity(a_vel));
    let _ = ecs.set(b, Position(b_start));
    let _ = ecs.set(b, Velocity(b_vel));
    let _ = ecs.set(c, Position(c_start));
    let mut ids = Vec::new();
    ecs.collect(&mut ids);
    for id in ids {
        let p = ecs.get::<Position>(id);
        let v = ecs.get::<Velocity>(id);
        if let (Ok(pos), Ok(vel)) = (p, v) {
            let _ = ecs.set(id, update_position(&pos, &vel));
        }
    }
    assert!(ecs.get::<Position>(a) == Ok(Position(a_start + a_vel)));
    assert!(ecs.get::<Position>(b) == Ok(Position(b_start + b_vel)));
    assert!(ecs.get::<Position>(c) == Ok(Position(c_start)));
}

#[test]
fn test_set_wont_change_id() {
    let mut ecs = Ecs::new();
    let a = ecs.create_entity();
    let id = ecs.set(a, Position(Vector2::new(0.0, 0.0))).unwrap();
    let new_id = ecs.set(a, Position(Vector2::new(1.0, 1.0))).unwrap();

    assert!(id == new_id, "Ecs::set changed the id of a component!");

    let new_value: Position = ecs.get(a).unwrap();
    assert!(
        new_value == Position(Vector2::new(1.0, 1.0)),
        "Ecs::set didn't update the component."
    );
}

#[test]
fn test_double_mutable_borrow_fails() {
    let mut ecs = Ecs::new();
    let a = ecs.create_entity();
    let _id = ecs.set(a, Position(Vector2::new(0.0, 0.0))).unwrap();
    let borrow_1 = ecs.borrow::<Position>(a).unwrap();
    let maybe_borrow_2 = ecs.borrow_mut::<Position>(a);

    assert!(maybe_borrow_2.is_err());
    println!("{:?}", *borrow_1);
}

#[test]
fn test_cannot_replace_while_borrowed() {
    let mut ecs = Ecs::new();
    let a = ecs.create_entity();
    let _id = ecs.set(a, Position(Vector2::new(0.0, 0.0))).unwrap();
    let borrow = ecs.borrow::<Position>(a).unwrap();
    let error = ecs.replace(a, Position(Vector2::new(1.0, 1.0)));

    assert!(error.is_err());
    println!("{:?}", *borrow);
}

#[test]
fn update_gives_the_exact_sums() {
    let mut ecs = Ecs::new();
    let a = ecs.create_entity();
    let b = ecs.create_entity();
    ecs.set(a, Position(Vector2::new(1., 3.))).unwrap();
    ecs.set(a, Velocity(Vector2::new(0., 2.))).unwrap();
    ecs.set(b, Position(Vector2::new(-3., 4.))).unwrap();
    ecs.set(b, Velocity(Vector2::new(1., 9.))).unwrap();
    for id in [a, b] {
        let pos = ecs.get::<Position>(id).unwrap();
        let vel = ecs.get::<Velocity>(id).unwrap();
        ecs.set(id, update_position(&pos, &vel)).unwrap();
    }
    assert_eq!(ecs.get::<Position>(a), Ok(Position(Vector2::new(1., 5.))));
    assert_eq!(ecs.get::<Position>(b), Ok(Position(Vector2::new(-2., 13.))));
    assert_eq!(ecs.get::<Velocity>(a), Ok(Velocity(Vector2::new(0., 2.))));
}

#[test]
fn new_store_is_empty() {
    let ecs = Ecs::new();
    let mut ids = vec![];
    ecs.collect(&mut ids);
    assert!(ids.is_empty());
    assert!(ecs.components::<Position>().is_empty());
    assert!(ecs.entities_with::<Position>().is_empty());
    let empty = Ecs::empty();
    empty.collect(&mut ids);
    assert!(ids.is_empty());
}

#[test]
fn created_entities_exist_and_differ() {
    let mut ecs = Ecs::new();
    let a = ecs.create_entity();
    let b = ecs.try_create_entity().unwrap();
    let c = ecs.create_entity();
    assert!(a != b && b != c && a != c);
    assert!(ecs.has_entity(a));
    assert!(ecs.has_entity(b));
    assert!(ecs.has_entity(c));
    assert_eq!(ecs.has_component::<Position>(a), Ok(None));
    let mut ids = vec![];
    ecs.collect(&mut ids);
    assert_eq!(ids.len(), 3);
    let set: HashSet<EntityId> = ids.into_iter().collect();
    assert_eq!(set, [a, b, c].into_iter().collect::<HashSet<EntityId>>());
}

#[test]
fn collect_drops_what_the_vector_held() {
    let mut ecs = Ecs::new();
    let a = ecs.create_entity();
    let mut other = Ecs::new();
    let stranger = other.create_entity();
    let mut ids = vec![stranger, stranger];
    ecs.collect(&mut ids);
    assert_eq!(ids, vec![a]);
}

#[test]
fn entity_numbers_are_not_reused() {
    let mut ecs = Ecs::new();
    let a = ecs.create_entity();
    ecs.remove_entity(a).unwrap();
    let b = ecs.create_entity();
    assert!(a != b);
    assert!(!ecs.has_entity(a));
    assert!(ecs.has_entity(b));
}

#[test]
fn component_numbers_are_not_reused() {
    let mut ecs = Ecs::new();
    let a = ecs.create_entity();
    let first = ecs.set(a, 1u32).unwrap();
    ecs.remove_entity(a).unwrap();
    let b = ecs.create_entity();
    let second = ecs.set(b, 2u32).unwrap();
    assert!(first != second);
    assert!(!ecs.has_component_by_id(first));
    assert!(ecs.has_component_by_id(second));
}

#[test]
fn remove_entity_removes_its_components() {
    let mut ecs = Ecs::new();
    let a = ecs.create_entity();
    let b = ecs.create_entity();
    let pa = ecs.set(a, Position(Vector2::new(1., 2.))).unwrap();
    let va = ecs.set(a, Velocity(Vector2::new(3., 4.))).unwrap();
    let pb = ecs.set(b, Position(Vector2::new(5., 6.))).unwrap();
    assert_eq!(ecs.remove_entity(a), Ok(()));
    assert!(!ecs.has_entity(a));
    assert!(!ecs.has_component_by_id(pa));
    assert!(!ecs.has_component_by_id(va));
    assert!(ecs.has_entity(b));
    assert!(ecs.has_component_by_id(pb));
    assert_eq!(ecs.get::<Position>(b), Ok(Position(Vector2::new(5., 6.))));
    assert_eq!(ecs.components::<Position>(), vec![pb]);
    assert!(ecs.components::<Velocity>().is_empty());
    assert_eq!(ecs.get_parent(pa), Err(EcsError::ComponentNotFound(pa)));
}

#[test]
fn remove_entity_fails_on_a_missing_entity() {
    let mut ecs = Ecs::new();
    let a = ecs.create_entity();
    let kept = ecs.create_entity();
    ecs.set(kept, 7u8).unwrap();
    assert_eq!(ecs.remove_entity(a), Ok(()));
    assert_eq!(ecs.remove_entity(a), Err(EcsError::EntityNotFound(a)));
    assert!(ecs.has_entity(kept));
    assert_eq!(ecs.get::<u8>(kept), Ok(7));
}

#[test]
fn lookups_fail_on_a_missing_entity() {
    let mut ecs = Ecs::new();
    let mut other = Ecs::new();
    let stranger = other.create_entity();
    let a = ecs.create_entity();
    let id = ecs.set(a, 3i64).unwrap();
    assert!(!ecs.has_entity(stranger));
    assert_eq!(
        ecs.has_component::<i64>(stranger),
        Err(EcsError::EntityNotFound(stranger))
    );
    assert_eq!(
        ecs.lookup_component::<i64>(stranger),
        Err(EcsError::EntityNotFound(stranger))
    );
    assert_eq!(
        ecs.is_component_attached(stranger, id),
        Err(EcsError::EntityNotFound(stranger))
    );
    assert_eq!(ecs.get::<i64>(stranger), Err(EcsError::EntityNotFound(stranger)));
    assert_eq!(
        ecs.set(stranger, 1i64),
        Err(EcsError::EntityNotFound(stranger))
    );
    assert_eq!(
        ecs.replace(stranger, 1i64),
        Err(EcsError::EntityNotFound(stranger))
    );
    assert!(ecs.borrow::<i64>(stranger).is_err());
    assert!(ecs.borrow_mut::<i64>(stranger).is_err());
    assert_eq!(ecs.get::<i64>(a), Ok(3));
}

#[test]
fn lookups_tell_types_apart() {
    let mut ecs = Ecs::new();
    let a = ecs.create_entity();
    let p = ecs.set(a, Position(Vector2::new(1., 1.))).unwrap();
    assert_eq!(ecs.has_component::<Position>(a), Ok(Some(p)));
    assert_eq!(ecs.has_component::<Velocity>(a), Ok(None));
    assert_eq!(ecs.lookup_component::<Position>(a), Ok(p));
    assert_eq!(
        ecs.lookup_component::<Velocity>(a),
        Err(EcsError::ComponentTypeNotFound(a))
    );
    assert_eq!(
        ecs.get::<Velocity>(a),
        Err(EcsError::ComponentTypeNotFound(a))
    );
    let v = ecs.set(a, Velocity(Vector2::new(2., 2.))).unwrap();
    assert!(p != v);
    assert_eq!(ecs.has_component::<Velocity>(a), Ok(Some(v)));
    assert_eq!(ecs.has_component::<Position>(a), Ok(Some(p)));
    assert_eq!(ecs.component_is_type::<Position>(p), Ok(true));
    assert_eq!(ecs.component_is_type::<Velocity>(p), Ok(false));
    assert_eq!(ecs.component_is_type::<Velocity>(v), Ok(true));
}

#[test]
fn parents_and_attachment() {
    let mut ecs = Ecs::new();
    let a = ecs.create_entity();
    let b = ecs.create_entity();
    let pa = ecs.set(a, 1u8).unwrap();
    let pb = ecs.set(b, 2u8).unwrap();
    assert_eq!(ecs.get_parent(pa), Ok(a));
    assert_eq!(ecs.get_parent(pb), Ok(b));
    assert_eq!(ecs.is_component_attached(a, pa), Ok(true));
    assert_eq!(ecs.is_component_attached(a, pb), Ok(false));
    assert_eq!(ecs.is_component_attached(b, pb), Ok(true));
    ecs.remove_entity(b).unwrap();
    assert_eq!(ecs.get_parent(pb), Err(EcsError::ComponentNotFound(pb)));
    assert_eq!(
        ecs.component_is_type::<u8>(pb),
        Err(EcsError::ComponentNotFound(pb))
    );
    assert_eq!(ecs.is_component_attached(a, pb), Ok(false));
}

#[test]
fn set_creates_then_updates_in_place() {
    let mut ecs = Ecs::new();
    let a = ecs.create_entity();
    let first = ecs.set(a, Name(String::from("one"))).unwrap();
    assert_eq!(ecs.get::<Name>(a), Ok(Name(String::from("one"))));
    let second = ecs.set(a, Name(String::from("two"))).unwrap();
    let third = ecs.set(a, Name(String::from("three"))).unwrap();
    assert_eq!(first, second);
    assert_eq!(first, third);
    assert_eq!(ecs.get::<Name>(a), Ok(Name(String::from("three"))));
    assert_eq!(ecs.components::<Name>(), vec![first]);
}

#[test]
fn set_fails_with_a_borrow_error_while_the_value_is_borrowed() {
    let mut ecs = Ecs::new();
    let a = ecs.create_entity();
    let id = ecs.set(a, 1u32).unwrap();
    std::mem::forget(ecs.borrow::<u32>(a).unwrap());
    assert_eq!(ecs.set(a, 2u32), Err(EcsError::BorrowError(id)));
    assert_eq!(ecs.get::<u32>(a), Ok(1));
}

#[test]
fn replace_gives_the_old_value_back() {
    let mut ecs = Ecs::new();
    let a = ecs.create_entity();
    let id = ecs.set(a, 10u32).unwrap();
    assert_eq!(ecs.replace(a, 11u32), Ok(10));
    assert_eq!(ecs.get::<u32>(a), Ok(11));
    assert_eq!(ecs.replace_by_id(id, 12u32), Ok(11));
    assert_eq!(ecs.get_by_id::<u32>(id), Ok(12));
    assert_eq!(ecs.has_component::<u32>(a), Ok(Some(id)));
}

#[test]
fn replace_does_not_create() {
    let mut ecs = Ecs::new();
    let a = ecs.create_entity();
    ecs.set(a, 1u8).unwrap();
    assert_eq!(
        ecs.replace(a, Position(Vector2::new(1., 1.))),
        Err(EcsError::ComponentTypeNotFound(a))
    );
    assert_eq!(ecs.has_component::<Position>(a), Ok(None));
    assert!(ecs.components::<Position>().is_empty());
    assert_eq!(ecs.get::<u8>(a), Ok(1));
}

#[test]
fn replace_by_id_checks_the_type() {
    let mut ecs = Ecs::new();
    let a = ecs.create_entity();
    let id = ecs.set(a, 5u16).unwrap();
    assert_eq!(
        ecs.replace_by_id(id, 5u64),
        Err(EcsError::ComponentTypeMismatch(id))
    );
    assert_eq!(ecs.get::<u16>(a), Ok(5));
    ecs.remove_entity(a).unwrap();
    assert_eq!(
        ecs.replace_by_id(id, 6u16),
        Err(EcsError::ComponentNotFound(id))
    );
}

#[test]
fn access_by_id_checks_the_type() {
    let mut ecs = Ecs::new();
    let a = ecs.create_entity();
    let id = ecs.set(a, Position(Vector2::new(1., 2.))).unwrap();
    assert_eq!(ecs.get_by_id::<Position>(id), Ok(Position(Vector2::new(1., 2.))));
    assert_eq!(
        ecs.get_by_id::<Velocity>(id),
        Err(EcsError::ComponentTypeMismatch(id))
    );
    assert!(matches!(
        ecs.borrow_by_id::<Velocity>(id),
        Err(EcsError::ComponentTypeMismatch(_))
    ));
    assert!(matches!(
        ecs.borrow_mut_by_id::<Velocity>(id),
        Err(EcsError::ComponentTypeMismatch(_))
    ));
    assert!(ecs.borrow_mut_by_id::<Position>(id).is_ok());
}

#[test]
fn access_by_id_fails_on_a_missing_component() {
    let mut ecs = Ecs::new();
    let a = ecs.create_entity();
    let id = ecs.set(a, 1u8).unwrap();
    ecs.remove_entity(a).unwrap();
    assert_eq!(ecs.get_by_id::<u8>(id), Err(EcsError::ComponentNotFound(id)));
    assert!(matches!(
        ecs.borrow_by_id::<u8>(id),
        Err(EcsError::ComponentNotFound(_))
    ));
    assert!(matches!(
        ecs.borrow_mut_by_id::<u8>(id),
        Err(EcsError::ComponentNotFound(_))
    ));
}

#[test]
fn shared_borrows_coexist_and_exclude_the_exclusive_one() {
    let mut ecs = Ecs::new();
    let a = ecs.create_entity();
    let id = ecs.set(a, 41u32).unwrap();
    let one = ecs.borrow::<u32>(a).unwrap();
    let two = ecs.borrow::<u32>(a).unwrap();
    let three = ecs.borrow_by_id::<u32>(id).unwrap();
    assert_eq!(*one + *two + *three, 123);
    assert!(matches!(
        ecs.borrow_mut::<u32>(a),
        Err(EcsError::BorrowError(component)) if component == id
    ));
    assert_eq!(ecs.replace(a, 1u32), Err(EcsError::BorrowError(id)));
    assert_eq!(ecs.get::<u32>(a), Ok(41));
    drop(one);
    drop(two);
    assert!(ecs.borrow_mut::<u32>(a).is_err());
    drop(three);
    let mut exclusive = ecs.borrow_mut::<u32>(a).unwrap();
    *exclusive += 1;
    assert_eq!(*exclusive, 42);
    assert!(matches!(
        ecs.borrow::<u32>(a),
        Err(EcsError::BorrowError(component)) if component == id
    ));
    assert_eq!(ecs.get::<u32>(a), Err(EcsError::BorrowError(id)));
    assert!(ecs.borrow_mut::<u32>(a).is_err());
    drop(exclusive);
    assert_eq!(ecs.get::<u32>(a), Ok(42));
}

#[test]
fn borrows_of_different_components_are_independent() {
    let mut ecs = Ecs::new();
    let a = ecs.create_entity();
    let b = ecs.create_entity();
    ecs.set(a, 1u32).unwrap();
    ecs.set(a, 2u64).unwrap();
    ecs.set(b, 3u32).unwrap();
    let mut x = ecs.borrow_mut::<u32>(a).unwrap();
    let mut y = ecs.borrow_mut::<u64>(a).unwrap();
    let mut z = ecs.borrow_mut::<u32>(b).unwrap();
    *x += 10;
    *y += 20;
    *z += 30;
    drop((x, y, z));
    assert_eq!(ecs.get::<u32>(a), Ok(11));
    assert_eq!(ecs.get::<u64>(a), Ok(22));
    assert_eq!(ecs.get::<u32>(b), Ok(33));
}

#[test]
fn exclusive_guard_replaces_the_value() {
    let mut ecs = Ecs::new();
    let a = ecs.create_entity();
    ecs.set(a, Name(String::from("old"))).unwrap();
    let mut guard = ecs.borrow_mut::<Name>(a).unwrap();
    let old = guard.replace(Name(String::from("new")));
    assert_eq!(old, Name(String::from("old")));
    assert_eq!(*guard, Name(String::from("new")));
    drop(guard);
    assert_eq!(ecs.get::<Name>(a), Ok(Name(String::from("new"))));
}

#[test]
fn components_lists_exactly_the_components_of_the_type() {
    let mut ecs = Ecs::new();
    let c = ecs.create_entity();
    let a = ecs.create_entity();
    let b = ecs.create_entity();
    let pb = ecs.set(b, Position(Vector2::new(0., 0.))).unwrap();
    let va = ecs.set(a, Velocity(Vector2::new(0., 0.))).unwrap();
    let pa = ecs.set(a, Position(Vector2::new(0., 0.))).unwrap();
    let pc = ecs.set(c, Position(Vector2::new(0., 0.))).unwrap();
    ecs.set(c, 1u8).unwrap();
    let positions = ecs.components::<Position>();
    assert_eq!(positions.len(), 3);
    let set: HashSet<ComponentId> = positions.into_iter().collect();
    assert_eq!(set, [pa, pb, pc].into_iter().collect::<HashSet<ComponentId>>());
    assert_eq!(ecs.components::<Velocity>(), vec![va]);
    assert!(ecs.components::<u64>().is_empty());
    let holders: HashSet<EntityId> = ecs.entities_with::<Position>().into_iter().collect();
    assert_eq!(holders, [a, b, c].into_iter().collect::<HashSet<EntityId>>());
    assert_eq!(ecs.entities_with::<Velocity>(), vec![a]);
    assert_eq!(ecs.entities_with::<Position>().len(), 3);
}

#[test]
fn components_do_not_depend_on_insertion_order() {
    let mut one = Ecs::new();
    let a = one.create_entity();
    let b = one.create_entity();
    one.set(a, 1u8).unwrap();
    one.set(a, 1u16).unwrap();
    one.set(b, 2u16).unwrap();
    one.set(b, 2u8).unwrap();
    assert_eq!(one.components::<u8>().len(), 2);
    assert_eq!(one.components::<u16>().len(), 2);
    let parents: HashSet<EntityId> = one
        .components::<u8>()
        .into_iter()
        .map(|id| one.get_parent(id).unwrap())
        .collect();
    assert_eq!(parents, [a, b].into_iter().collect::<HashSet<EntityId>>());
}

#[test]
fn walk_borrows_each_component_at_its_step() {
    let mut ecs = Ecs::new();
    let a = ecs.create_entity();
    let b = ecs.create_entity();
    let ia = ecs.set(a, 1u32).unwrap();
    let ib = ecs.set(b, 2u32).unwrap();
    ecs.set(a, 9u8).unwrap();
    let mut walk = ecs.components_ref::<u32>();
    let mut seen = vec![];
    while let Some(step) = walk.next() {
        let (id, value) = step.unwrap();
        seen.push((id, *value));
    }
    assert!(walk.next().is_none());
    seen.sort_by_key(|pair| pair.1);
    assert_eq!(seen, vec![(ia, 1), (ib, 2)]);
}

#[test]
fn walk_sees_earlier_writes() {
    let mut ecs = Ecs::new();
    let a = ecs.create_entity();
    let b = ecs.create_entity();
    ecs.set(a, 0u32).unwrap();
    ecs.set(b, 0u32).unwrap();
    let mut walk = ecs.components_mut::<u32>();
    let mut steps = 0u32;
    while let Some(step) = walk.next() {
        let (id, mut value) = step.unwrap();
        assert_eq!(*value, steps);
        *value += 5;
        drop(value);
        for other in ecs.components::<u32>() {
            if other != id {
                *ecs.borrow_mut_by_id::<u32>(other).unwrap() += 1;
            }
        }
        steps += 1;
    }
    assert_eq!(steps, 2);
    let mut values = vec![ecs.get::<u32>(a).unwrap(), ecs.get::<u32>(b).unwrap()];
    values.sort();
    assert_eq!(values, vec![6, 6]);
}

#[test]
fn walk_reports_a_refused_borrow_and_moves_on() {
    let mut ecs = Ecs::new();
    let a = ecs.create_entity();
    let id = ecs.set(a, 1u32).unwrap();
    let held = ecs.borrow_mut::<u32>(a).unwrap();
    let mut walk = ecs.components_ref::<u32>();
    assert!(matches!(
        walk.next(),
        Some(Err(EcsError::BorrowError(component))) if component == id
    ));
    assert!(walk.next().is_none());
    drop(held);
    let mut again = ecs.components_mut::<u32>();
    assert!(matches!(again.next(), Some(Ok(_))));
    assert!(again.next().is_none());
}

#[test]
fn walk_is_a_snapshot_of_the_identifiers() {
    let mut ecs = Ecs::new();
    let a = ecs.create_entity();
    ecs.set(a, 1u32).unwrap();
    let first = ecs.components::<u32>();
    let b = ecs.create_entity();
    ecs.set(b, 2u32).unwrap();
    let second = ecs.components::<u32>();
    assert_eq!(first.len(), 1);
    assert_eq!(second.len(), 2);
}

#[test]
fn handle_resolves_against_the_store() {
    let mut ecs = Ecs::new();
    let a = ecs.create_entity();
    let id = ecs.set(a, Position(Vector2::new(1., 2.))).unwrap();
    let handle: ComponentRef<Position> = ComponentRef::from_entity(a, &ecs).unwrap();
    assert!(handle == ComponentRef::new(id));
    assert_eq!(handle.get(&ecs), Ok(Position(Vector2::new(1., 2.))));
    assert_eq!(*handle.borrow(&ecs).unwrap(), Position(Vector2::new(1., 2.)));
    handle.borrow_mut(&ecs).unwrap().0.x = 7.;
    assert_eq!(ecs.get::<Position>(a), Ok(Position(Vector2::new(7., 2.))));
    ecs.set(a, Position(Vector2::new(3., 4.))).unwrap();
    assert_eq!(handle.get(&ecs), Ok(Position(Vector2::new(3., 4.))));
    let copy = handle;
    assert_eq!(copy.get(&ecs), handle.clone().get(&ecs));
}

#[test]
fn handle_fails_once_its_component_is_gone() {
    let mut ecs = Ecs::new();
    let a = ecs.create_entity();
    let id = ecs.set(a, 1u8).unwrap();
    let handle: ComponentRef<u8> = ComponentRef::new(id);
    ecs.remove_entity(a).unwrap();
    assert_eq!(handle.get(&ecs), Err(EcsError::ComponentNotFound(id)));
    assert!(handle.borrow(&ecs).is_err());
    assert!(handle.borrow_mut(&ecs).is_err());
}

#[test]
fn handle_from_entity_fails_as_the_lookup_does() {
    let mut ecs = Ecs::new();
    let a = ecs.create_entity();
    assert!(matches!(
        ComponentRef::<u8>::from_entity(a, &ecs),
        Err(EcsError::ComponentTypeNotFound(entity)) if entity == a
    ));
    ecs.remove_entity(a).unwrap();
    assert!(matches!(
        ComponentRef::<u8>::from_entity(a, &ecs),
        Err(EcsError::EntityNotFound(entity)) if entity == a
    ));
}

#[test]
fn handle_of_the_wrong_type_is_a_mismatch() {
    let mut ecs = Ecs::new();
    let a = ecs.create_entity();
    let id = ecs.set(a, 1u8).unwrap();
    let handle: ComponentRef<u16> = ComponentRef::new(id);
    assert_eq!(handle.get(&ecs), Err(EcsError::ComponentTypeMismatch(id)));
}

#[test]
fn merge_of_an_empty_store_changes_nothing() {
    let mut ecs = Ecs::new();
    let a = ecs.create_entity();
    let id = ecs.set(a, 1u8).unwrap();
    ecs.merge(Ecs::empty());
    ecs.merge(Ecs::new());
    let mut ids = vec![];
    ecs.collect(&mut ids);
    assert_eq!(ids, vec![a]);
    assert_eq!(ecs.components::<u8>(), vec![id]);
    assert_eq!(ecs.get::<u8>(a), Ok(1));
}

#[test]
fn merge_brings_everything_over() {
    let mut primary = Ecs::new();
    let a = primary.create_entity();
    let pa = primary.set(a, Position(Vector2::new(1., 1.))).unwrap();
    let mut scratch = Ecs::empty();
    let b = scratch.create_entity();
    let c = scratch.create_entity();
    let pb = scratch.set(b, Position(Vector2::new(2., 2.))).unwrap();
    let vb = scratch.set(b, Velocity(Vector2::new(3., 3.))).unwrap();
    let handle: ComponentRef<Velocity> = ComponentRef::from_entity(b, &scratch).unwrap();
    primary.merge(scratch);
    let mut ids = vec![];
    primary.collect(&mut ids);
    assert_eq!(ids.len(), 3);
    let set: HashSet<EntityId> = ids.into_iter().collect();
    assert_eq!(set, [a, b, c].into_iter().collect::<HashSet<EntityId>>());
    assert_eq!(primary.components::<Position>().len(), 2);
    assert_eq!(primary.components::<Velocity>(), vec![vb]);
    assert_eq!(primary.get::<Position>(a), Ok(Position(Vector2::new(1., 1.))));
    assert_eq!(primary.get::<Position>(b), Ok(Position(Vector2::new(2., 2.))));
    assert_eq!(primary.get_by_id::<Position>(pb), Ok(Position(Vector2::new(2., 2.))));
    assert_eq!(handle.get(&primary), Ok(Velocity(Vector2::new(3., 3.))));
    assert_eq!(primary.get_parent(pb), Ok(b));
    assert_eq!(primary.get_parent(pa), Ok(a));
    assert_eq!(primary.has_component::<Position>(c), Ok(None));
    assert_eq!(primary.lookup_component::<Velocity>(b), Ok(vb));
}

#[test]
fn merged_store_goes_on_making_new_identifiers() {
    let mut primary = Ecs::new();
    let a = primary.create_entity();
    let mut scratch = Ecs::empty();
    let b = scratch.create_entity();
    let ib = scratch.set(b, 1u8).unwrap();
    primary.merge(scratch);
    let c = primary.create_entity();
    let ic = primary.set(c, 2u8).unwrap();
    assert!(c != a && c != b);
    assert!(ic != ib);
    assert_eq!(primary.get::<u8>(b), Ok(1));
    assert_eq!(primary.get::<u8>(c), Ok(2));
    primary.remove_entity(b).unwrap();
    assert!(!primary.has_component_by_id(ib));
    assert_eq!(primary.components::<u8>(), vec![ic]);
}

#[test]
fn error_values_compare_and_clone() {
    let mut ecs = Ecs::new();
    let a = ecs.create_entity();
    let inner = EcsError::EntityNotFound(a);
    let outer = EcsError::InternalError("wrapped", Some(Box::new(inner.clone())));
    assert_eq!(outer.clone(), outer);
    assert!(outer != EcsError::InternalError("wrapped", None));
    assert!(inner != EcsError::ComponentTypeNotFound(a));
    assert_eq!(EcsError::IdsExhausted.clone(), EcsError::IdsExhausted);
}

struct Shared<'a, T: 'static>(better_ecs::Iter<'a, T>);

impl<'a, T: 'static> Iterator for Shared<'a, T> {
    type Item = (ComponentId, better_ecs::Ref<'a, T>);

    fn next(&mut self) -> Option<Self::Item> {
        self.0.next().map(|step| step.unwrap())
    }
}

struct Exclusive<'a, T: 'static>(better_ecs::IterMut<'a, T>);

impl<'a, T: 'static> Iterator for Exclusive<'a, T> {
    type Item = (ComponentId, better_ecs::RefMut<'a, T>);

    fn next(&mut self) -> Option<Self::Item> {
        self.0.next().map(|step| step.unwrap())
    }
}

#[derive(Clone, PartialEq, Debug)]
struct Place {
    x: i32,
}

#[derive(Clone)]
struct Motion {
    dx: i32,
    place: ComponentRef<Place>,
}

#[derive(Clone)]
struct Gun {
    place: ComponentRef<Place>,
}

#[derive(Clone, PartialEq, Debug)]
struct Shot {
    life: i32,
}

fn spawn(ecs: &mut Ecs, x: i32, dx: i32) -> EntityId {
    let actor = ecs.create_entity();
    let place = ComponentRef::new(ecs.set(actor, Place { x }).unwrap());
    ecs.set(actor, Motion { dx, place }).unwrap();
    actor
}

#[test]
fn walks_adapt_to_iterators() {
    let mut ecs = Ecs::new();
    let a = spawn(&mut ecs, 1, 10);
    let b = spawn(&mut ecs, 2, 20);
    Exclusive(ecs.components_mut::<Motion>()).for_each(|(_, mut motion)| {
        motion.dx += 1;
        let dx = motion.dx;
        motion.place.borrow_mut(&ecs).unwrap().x += dx;
    });
    assert_eq!(ecs.get::<Place>(a), Ok(Place { x: 12 }));
    assert_eq!(ecs.get::<Place>(b), Ok(Place { x: 23 }));
    let total: i32 = Shared(ecs.components_ref::<Place>())
        .map(|(_, place)| place.x)
        .sum();
    assert_eq!(total, 35);
    let far = Shared(ecs.components_ref::<Place>())
        .filter(|(_, place)| place.x > 20)
        .map(|(id, _)| ecs.get_parent(id).unwrap())
        .collect::<Vec<_>>();
    assert_eq!(far, vec![b]);
}

#[test]
fn entities_made_during_a_walk_are_merged_in_afterwards() {
    let mut ecs = Ecs::new();
    let gunner = ecs.create_entity();
    let place = ComponentRef::new(ecs.set(gunner, Place { x: 7 }).unwrap());
    ecs.set(gunner, Gun { place }).unwrap();
    let mut scratch = Ecs::empty();
    let mut made = vec![];
    Exclusive(ecs.components_mut::<Gun>()).for_each(|(_, gun)| {
        let shot = scratch.create_entity();
        let at = gun.place.get(&ecs).unwrap();
        scratch.set(shot, at).unwrap();
        scratch.set(shot, Shot { life: 2 }).unwrap();
        made.push(shot);
    });
    assert_eq!(ecs.entities_with::<Shot>(), vec![]);
    ecs.merge(scratch);
    assert_eq!(ecs.entities_with::<Shot>(), made);
    assert_eq!(ecs.get::<Place>(made[0]), Ok(Place { x: 7 }));
    assert_eq!(ecs.get::<Shot>(made[0]), Ok(Shot { life: 2 }));
    assert_eq!(ecs.components::<Place>().len(), 2);
    let dead = Shared(ecs.components_ref::<Shot>())
        .filter(|(_, shot)| shot.life <= 2)
        .map(|(id, _)| ecs.get_parent(id).unwrap())
        .collect::<Vec<_>>();
    for entity in dead {
        ecs.remove_entity(entity).unwrap();
    }
    assert!(ecs.components::<Shot>().is_empty());
    assert_eq!(ecs.components::<Place>().len(), 1);
    assert!(ecs.has_entity(gunner));
}

#[test]
fn stores_made_one_after_another_differ() {
    let mut one = Ecs::new();
    let mut two = Ecs::new();
    let a = one.create_entity();
    let b = two.create_entity();
    assert!(a != b);
    assert!(!one.has_entity(b));
    assert!(!two.has_entity(a));
}

#[test]
fn stores_share_an_origin_only_through_merging() {
    let mut one = Ecs::new();
    let mut two = Ecs::new();
    let mut three = Ecs::empty();
    assert!(one.shares_origin_with(&one));
    assert!(!one.shares_origin_with(&two));
    assert!(!two.shares_origin_with(&one));
    let a = one.create_entity();
    one.set(a, 1u8).unwrap();
    let b = two.create_entity();
    two.set(b, 2u8).unwrap();
    let c = three.create_entity();
    three.set(c, 3u8).unwrap();
    assert!(!one.shares_origin_with(&two));
    assert!(!one.shares_origin_with(&three));
    one.merge(three);
    assert!(!one.shares_origin_with(&two));
    assert!(one.shares_origin_with(&one));
    two.merge(one);
    assert_eq!(two.get::<u8>(a), Ok(1));
    assert_eq!(two.get::<u8>(b), Ok(2));
    assert_eq!(two.get::<u8>(c), Ok(3));
    assert_eq!(two.components::<u8>().len(), 3);
}

#[test]
fn store_identifiers_differ() {
    assert!(better_ecs::EcsId::new() != better_ecs::EcsId::new());
}

#[test]
fn handle_converts_from_an_identifier() {
    let mut ecs = Ecs::new();
    let a = ecs.create_entity();
    let id = ecs.set(a, 9u8).unwrap();
    let handle: ComponentRef<u8> = id.into();
    assert!(handle == ComponentRef::new(id));
    assert_eq!(handle.get(&ecs), Ok(9));
}

#[test]
fn a_row_can_be_made_for_any_value() {
    let mut ecs = Ecs::new();
    let a = ecs.create_entity();
    let _row = better_ecs::ComponentEntry::new(String::from("value"), a);
    let _other = better_ecs::ComponentEntry::new(3.5f64, a);
}

#[test]
fn guards_read_what_was_written_through_them() {
    let mut ecs = Ecs::new();
    let a = ecs.create_entity();
    ecs.set(a, 3u32).unwrap();
    let mut guard = ecs.borrow_mut::<u32>(a).unwrap();
    assert_eq!(*guard, 3);
    assert_eq!(guard.replace(5), 3);
    assert_eq!(*guard, 5);
    *guard = 7;
    assert_eq!(*guard, 7);
    assert_eq!(guard.replace(9), 7);
    drop(guard);
    let one = ecs.borrow::<u32>(a).unwrap();
    let two = ecs.borrow::<u32>(a).unwrap();
    assert_eq!(*one, 9);
    assert_eq!(*one, *two);
}

#[test]
fn allocator_counts_up_from_nothing() {
    let mut ids = better_ecs::IdAllocator::new();
    let one = ids.allocate_store_id().unwrap();
    let two = ids.allocate_store_id().unwrap();
    let three = ids.allocate_store_id().unwrap();
    assert!(one != two && two != three && one != three);
    let mut again = better_ecs::IdAllocator::new();
    assert_eq!(again.allocate_store_id(), Some(one));
    assert_eq!(again.allocate_store_id(), Some(two));
}

#[test]
fn stores_under_allocated_identifiers_are_apart() {
    let mut ids = better_ecs::IdAllocator::new();
    let mut primary = Ecs::with_id(ids.allocate_store_id().unwrap());
    let mut scratch = Ecs::with_id(ids.allocate_store_id().unwrap());
    assert!(!primary.shares_origin_with(&scratch));
    let a = primary.create_entity();
    let b = scratch.create_entity();
    assert!(a != b);
    let ia = primary.set(a, 1u8).unwrap();
    let ib = scratch.set(b, 2u8).unwrap();
    assert!(ia != ib);
    assert!(!primary.shares_origin_with(&scratch));
    primary.merge(scratch);
    assert_eq!(primary.get::<u8>(a), Ok(1));
    assert_eq!(primary.get::<u8>(b), Ok(2));
    assert_eq!(primary.get_by_id::<u8>(ib), Ok(2));
    let twin = Ecs::with_id(better_ecs::IdAllocator::new().allocate_store_id().unwrap());
    assert!(primary.shares_origin_with(&twin));
}

#[test]
fn store_made_under_an_identifier_is_empty() {
    let mut ids = better_ecs::IdAllocator::new();
    let ecs = Ecs::with_id(ids.allocate_store_id().unwrap());
    let mut found = vec![];
    ecs.collect(&mut found);
    assert!(found.is_empty());
    assert!(ecs.components::<u8>().is_empty());
}

#[test]
fn values_stay_with_their_components() {
    let mut ecs = Ecs::new();
    let a = ecs.create_entity();
    let b = ecs.create_entity();
    let c = ecs.create_entity();
    let ia = ecs.set(a, 10u32).unwrap();
    let ib = ecs.set(b, 20u32).unwrap();
    let ic = ecs.set(c, 30u32).unwrap();
    ecs.set(b, 21u32).unwrap();
    assert_eq!(ecs.get_by_id::<u32>(ia), Ok(10));
    assert_eq!(ecs.get_by_id::<u32>(ib), Ok(21));
    assert_eq!(ecs.get_by_id::<u32>(ic), Ok(30));
    assert_eq!(*ecs.borrow_by_id::<u32>(ia).unwrap(), 10);
    assert_eq!(*ecs.borrow_mut_by_id::<u32>(ic).unwrap(), 30);
    ecs.remove_entity(b).unwrap();
    let d = ecs.create_entity();
    ecs.set(d, 40u32).unwrap();
    assert_eq!(ecs.get_by_id::<u32>(ia), Ok(10));
    assert_eq!(ecs.get_by_id::<u32>(ic), Ok(30));
    let mut scratch = Ecs::empty();
    let e = scratch.create_entity();
    let ie = scratch.set(e, 50u32).unwrap();
    ecs.merge(scratch);
    assert_eq!(ecs.get_by_id::<u32>(ia), Ok(10));
    assert_eq!(ecs.get_by_id::<u32>(ic), Ok(30));
    assert_eq!(ecs.get_by_id::<u32>(ie), Ok(50));
    assert_eq!(ecs.get::<u32>(d), Ok(40));
    ecs.merge(Ecs::empty());
    assert_eq!(ecs.get_by_id::<u32>(ia), Ok(10));
    assert_eq!(ecs.get_by_id::<u32>(ie), Ok(50));
}
