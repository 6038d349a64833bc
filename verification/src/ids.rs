//! Identifiers: of a store, of an entity, of a component.
//!
//! An entity or component identifier is a pair of the store that minted it and
//! a sequence number of that store. Inside a store the pair is packed into one
//! `u128`, which keys the store's tables; packing loses nothing.

use vstd::prelude::*;

verus! {

/// Two to the power of 64: the weight of the store part in a packed key.
const STORE_WEIGHT: u128 = 0x1_0000_0000_0000_0000;

/// The key that the pair `(store, seq)` packs to.
spec fn pack(store: u64, seq: u64) -> u128 {
    (store as u128 * STORE_WEIGHT + seq as u128) as u128
}

/// The store part of a packed key.
spec fn unpack_store(key: u128) -> u64 {
    (key / STORE_WEIGHT) as u64
}

/// The sequence part of a packed key.
spec fn unpack_seq(key: u128) -> u64 {
    (key % STORE_WEIGHT) as u64
}

fn pack_exec(store: u64, seq: u64) -> (key: u128)
    ensures
        key == pack(store, seq),
{
    store as u128 * STORE_WEIGHT + seq as u128
}

fn unpack_exec(key: u128) -> (pair: (u64, u64))
    ensures
        pair.0 == unpack_store(key),
        pair.1 == unpack_seq(key),
{
    ((key / STORE_WEIGHT) as u64, (key % STORE_WEIGHT) as u64)
}

/// Draws a number for a new store.
///
/// Calls `rand::random::<u64>()`, which samples the thread-local generator.
/// Nothing is claimed of the number drawn.
#[verifier::external_body]
fn draw_store_number() -> u64 {
    rand::random::<u64>()
}

/// Identifies one store.
#[derive(Copy, Clone, PartialEq, Eq, Hash, Debug, Structural)]
pub struct EcsId(u64);

impl EcsId {
    /// The number that the identifier is made of.
    pub closed spec fn number(self) -> nat {
        self.0 as nat
    }

    /// A fresh store identifier, drawn at random from the 64-bit space.
    pub fn new() -> Self {
        EcsId(draw_store_number())
    }
}

/// Hands out store identifiers by counting: each call of one allocator gives
/// an identifier that no earlier call of it gave. Stores whose identifiers
/// come from one allocator are known to be apart.
pub struct IdAllocator {
    next: u64,
}

impl IdAllocator {
    /// The number of the identifier that is handed out next.
    pub closed spec fn next(self) -> nat {
        self.next as nat
    }

    /// An allocator that has handed out nothing yet.
    pub fn new() -> (allocator: Self)
        ensures
            allocator.next() == 0,
    {
        IdAllocator { next: 0 }
    }

    /// Hands out the next store identifier, or nothing once the numbers have
    /// run out.
    pub fn allocate_store_id(&mut self) -> (id: Option<EcsId>)
        ensures
            match id {
                Some(id) => id.number() == old(self).next() && final(self).next()
                    == old(self).next() + 1,
                None => old(self).next() == u64::MAX && final(self).next() == old(self).next(),
            },
    {
        let number = self.next;
        match self.next.checked_add(1) {
            Some(next) => {
                self.next = next;
                Some(EcsId(number))
            },
            None => None,
        }
    }
}

/// Identifies one entity: the store that created it and its number there.
#[derive(Copy, Clone, PartialEq, Eq, Hash, Debug, Structural)]
pub struct EntityId(EcsId, u64);

/// Identifies one component: the store that created it and its number there.
#[derive(Copy, Clone, PartialEq, Eq, Hash, Debug, Structural)]
pub struct ComponentId(EcsId, u64);

impl EntityId {
    /// The store that created this entity.
    pub closed spec fn store(self) -> EcsId {
        self.0
    }

    /// The entity's sequence number in the store that created it.
    pub closed spec fn seq(self) -> nat {
        self.1 as nat
    }

    /// The key under which a store files this entity.
    pub(crate) closed spec fn key(self) -> u128 {
        pack(self.0.0, self.1)
    }

    /// The entity that a key stands for.
    pub(crate) closed spec fn of_key(key: u128) -> EntityId {
        EntityId(EcsId(unpack_store(key)), unpack_seq(key))
    }

    /// The entity with the given number in the given store.
    pub closed spec fn at(store: EcsId, seq: nat) -> EntityId {
        EntityId(store, seq as u64)
    }

    /// `at` builds the identifier from its two parts.
    pub proof fn lemma_at(store: EcsId, seq: nat)
        requires
            seq <= u64::MAX,
        ensures
            EntityId::at(store, seq).store() == store,
            EntityId::at(store, seq).seq() == seq,
    {
    }

    /// An identifier is no more than its store and its number.
    pub proof fn lemma_same_parts(a: EntityId, b: EntityId)
        requires
            a.store() == b.store(),
            a.seq() == b.seq(),
        ensures
            a == b,
    {
    }

    /// Different entities have different keys.
    pub(crate) proof fn lemma_key_injective(a: EntityId, b: EntityId)
        requires
            a.key() == b.key(),
        ensures
            a == b,
    {
    }

    /// Every key stands for exactly one entity.
    pub(crate) proof fn lemma_key_roundtrip(key: u128)
        ensures
            EntityId::of_key(key).key() == key,
    {
    }

    /// The entity that a key built from an entity stands for is that entity.
    pub(crate) proof fn lemma_of_key_key(e: EntityId)
        ensures
            EntityId::of_key(e.key()) == e,
    {
    }

    pub(crate) fn mint(store: EcsId, seq: u64) -> (id: EntityId)
        ensures
            id == EntityId::at(store, seq as nat),
            id.store() == store,
            id.seq() == seq,
    {
        EntityId(store, seq)
    }

    pub(crate) fn origin(&self) -> (store: EcsId)
        ensures
            store == self.store(),
    {
        self.0
    }

    pub(crate) fn to_key(&self) -> (key: u128)
        ensures
            key == self.key(),
    {
        pack_exec(self.0.0, self.1)
    }

    pub(crate) fn from_key(key: u128) -> (id: EntityId)
        ensures
            id == EntityId::of_key(key),
    {
        let pair = unpack_exec(key);
        EntityId(EcsId(pair.0), pair.1)
    }
}

impl ComponentId {
    /// The store that created this component.
    pub closed spec fn store(self) -> EcsId {
        self.0
    }

    /// The component's sequence number in the store that created it.
    pub closed spec fn seq(self) -> nat {
        self.1 as nat
    }

    /// The key under which a store files this component.
    pub(crate) closed spec fn key(self) -> u128 {
        pack(self.0.0, self.1)
    }

    /// The component that a key stands for.
    pub(crate) closed spec fn of_key(key: u128) -> ComponentId {
        ComponentId(EcsId(unpack_store(key)), unpack_seq(key))
    }

    /// The component with the given number in the given store.
    pub closed spec fn at(store: EcsId, seq: nat) -> ComponentId {
        ComponentId(store, seq as u64)
    }

    /// `at` builds the identifier from its two parts.
    pub proof fn lemma_at(store: EcsId, seq: nat)
        requires
            seq <= u64::MAX,
        ensures
            ComponentId::at(store, seq).store() == store,
            ComponentId::at(store, seq).seq() == seq,
    {
    }

    /// An identifier is no more than its store and its number.
    pub proof fn lemma_same_parts(a: ComponentId, b: ComponentId)
        requires
            a.store() == b.store(),
            a.seq() == b.seq(),
        ensures
            a == b,
    {
    }

    /// Different components have different keys.
    pub(crate) proof fn lemma_key_injective(a: ComponentId, b: ComponentId)
        requires
            a.key() == b.key(),
        ensures
            a == b,
    {
    }

    /// Every key stands for exactly one component.
    pub(crate) proof fn lemma_key_roundtrip(key: u128)
        ensures
            ComponentId::of_key(key).key() == key,
    {
    }

    /// The component that a key built from a component stands for is that component.
    pub(crate) proof fn lemma_of_key_key(c: ComponentId)
        ensures
            ComponentId::of_key(c.key()) == c,
    {
    }

    pub(crate) fn mint(store: EcsId, seq: u64) -> (id: ComponentId)
        ensures
            id == ComponentId::at(store, seq as nat),
            id.store() == store,
            id.seq() == seq,
    {
        ComponentId(store, seq)
    }

    pub(crate) fn origin(&self) -> (store: EcsId)
        ensures
            store == self.store(),
    {
        self.0
    }

    pub(crate) fn to_key(&self) -> (key: u128)
        ensures
            key == self.key(),
    {
        pack_exec(self.0.0, self.1)
    }

    pub(crate) fn from_key(key: u128) -> (id: ComponentId)
        ensures
            id == ComponentId::of_key(key),
    {
        let pair = unpack_exec(key);
        ComponentId(EcsId(pair.0), pair.1)
    }
}

} // verus!
