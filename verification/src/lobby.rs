//! The registry that says which local entity stands for which connected peer.

use crate::message::ClientId;
use std::collections::HashMap;
use vstd::prelude::*;

verus! {

broadcast use vstd::std_specs::hash::group_hash_axioms;

/// The place of an entity in the table of the process that owns it.
pub type EntityHandle = usize;

/// For each known peer, the entity that stands for it in this process. A peer
/// has at most one entity; entries are added or replaced, never removed.
pub struct Lobby {
    players: HashMap<ClientId, EntityHandle>,
}

impl View for Lobby {
    type V = Map<ClientId, nat>;

    /// The mapping from peer to the place of its entity.
    closed spec fn view(&self) -> Map<ClientId, nat> {
        self.players@.map_values(|entity: EntityHandle| entity as nat)
    }
}

impl Lobby {
    /// The lobby that knows nobody.
    pub fn new() -> (lobby: Lobby)
        ensures
            lobby@ == Map::<ClientId, nat>::empty(),
    {
        Lobby { players: HashMap::new() }
    }

    /// Makes `entity` stand for `id` and gives the entity that stood for it before.
    pub fn insert(&mut self, id: ClientId, entity: EntityHandle) -> (previous: Option<
        EntityHandle,
    >)
        ensures
            final(self)@ == old(self)@.insert(id, entity as nat),
            previous is Some == old(self)@.contains_key(id),
            previous matches Some(entity_before) ==> entity_before == old(self)@[id],
    {
        self.players.insert(id, entity)
    }

    /// The entity that stands for `id`, if the lobby knows `id`.
    pub fn get(&self, id: ClientId) -> (entity: Option<EntityHandle>)
        ensures
            entity is Some == self@.contains_key(id),
            entity matches Some(found) ==> found == self@[id],
    {
        match self.players.get(&id) {
            Some(entity) => Some(*entity),
            None => None,
        }
    }

    /// Whether the lobby knows `id`.
    pub fn contains(&self, id: ClientId) -> (known: bool)
        ensures
            known == self@.contains_key(id),
    {
        self.players.contains_key(&id)
    }

    /// The number of peers that the lobby knows.
    pub fn len(&self) -> (n: usize)
        ensures
            n == self@.len(),
            self@.dom().finite(),
    {
        assert(self@.dom() =~= self.players@.dom());
        self.players.len()
    }

    /// Whether the lobby knows nobody.
    pub fn is_empty(&self) -> (empty: bool)
        ensures
            empty == (self@.len() == 0),
            self@.dom().finite(),
    {
        assert(self@.dom() =~= self.players@.dom());
        self.players.len() == 0
    }
}

} // verus!
