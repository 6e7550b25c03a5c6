//! The serving side: one authoritative entity for each connected client.

use crate::codec::decode_input;
use crate::codec::encode_snapshot;
use crate::codec::input_round_trip;
use crate::codec::input_wire;
use crate::codec::parse_input;
use crate::codec::parse_snapshot;
use crate::codec::parse_world;
use crate::codec::payloads_of;
use crate::codec::snapshot_wire;
use crate::entity::spawn_state;
use crate::entity::steered;
use crate::entity::EntityState;
use crate::lobby::EntityHandle;
use crate::lobby::Lobby;
use crate::message::distinct_entries_count;
use crate::message::distinct_ids;
use crate::message::entries_map;
use crate::message::entries_map_domain;
use crate::message::entries_map_last_entry;
use crate::message::ClientId;
use crate::message::InputCommand;
use crate::message::Snapshot;
use crate::message::SnapshotEntry;
use crate::scalar::Vector3;
use vstd::prelude::*;

verus! {

/// An entity of the server: its state and the client it was made for.
#[derive(Clone, Copy, Debug, PartialEq, Eq, Structural)]
pub struct Body {
    pub owner: ClientId,
    pub state: EntityState,
}

/// What the transport reports of a peer.
#[derive(Clone, Copy, Debug, PartialEq, Eq, Structural)]
pub enum ConnectionEvent {
    Connected(ClientId),
    Disconnected(ClientId),
}

/// The payloads that arrived from one client during a tick, oldest first.
#[derive(Clone, Debug)]
pub struct ClientBatch {
    pub id: ClientId,
    pub payloads: Vec<Vec<u8>>,
}

/// The batches of an inbox as plain values.
pub open spec fn inbox_of(inbox: Seq<ClientBatch>) -> Seq<(ClientId, Seq<Seq<u8>>)> {
    inbox.map_values(|batch: ClientBatch| (batch.id, payloads_of(batch.payloads@)))
}

/// The command that a batch asks for: the one in its last well-formed payload.
pub open spec fn last_command(batch: Seq<Seq<u8>>) -> Option<InputCommand>
    decreases batch.len(),
{
    if batch.len() == 0 {
        None
    } else {
        match parse_input(batch.last()) {
            Some(cmd) => Some(cmd),
            None => last_command(batch.drop_last()),
        }
    }
}

/// The server's world as a mathematical value: the table of its entities, one
/// for each client, and the lobby that says which of them stands for which
/// client.
pub struct ServerState {
    pub lobby: Map<ClientId, nat>,
    pub bodies: Seq<Body>,
}

impl ServerState {
    /// The world before anybody connected.
    pub open spec fn empty() -> ServerState {
        ServerState { lobby: Map::empty(), bodies: Seq::empty() }
    }

    /// The lobby and the table match one to one: every client of the lobby is
    /// mapped to an entity of its own, and every entity stands for its owner.
    /// So no client has two entities.
    pub open spec fn wf(self) -> bool {
        &&& self.lobby.dom().finite()
        &&& forall|id: ClientId| #[trigger]
            self.lobby.contains_key(id) ==> self.lobby[id] < self.bodies.len()
                && self.bodies[self.lobby[id] as int].owner == id
        &&& forall|entity: int|
            0 <= entity < self.bodies.len() ==> self.lobby.contains_key(
                (#[trigger] self.bodies[entity]).owner,
            ) && self.lobby[self.bodies[entity].owner] == entity
    }

    /// A client connects. For a client that is new to the lobby an entity
    /// appears in the spawn state at the end of the table and stands for the
    /// client from now on. For a client that the lobby knows no entity is made:
    /// the one that stands for it is put back in the spawn state.
    pub open spec fn connect(self, id: ClientId) -> ServerState {
        if self.lobby.contains_key(id) {
            ServerState {
                lobby: self.lobby,
                bodies: self.bodies.update(
                    self.lobby[id] as int,
                    Body { owner: id, state: spawn_state() },
                ),
            }
        } else {
            ServerState {
                lobby: self.lobby.insert(id, self.bodies.len()),
                bodies: self.bodies.push(Body { owner: id, state: spawn_state() }),
            }
        }
    }

    /// The world after an event of the transport. A disconnection changes
    /// nothing: the entity and the lobby entry stay.
    pub open spec fn after_event(self, event: ConnectionEvent) -> ServerState {
        match event {
            ConnectionEvent::Connected(id) => self.connect(id),
            ConnectionEvent::Disconnected(_) => self,
        }
    }

    /// The world after a sequence of events, taken in order.
    pub open spec fn after_events(self, events: Seq<ConnectionEvent>) -> ServerState
        decreases events.len(),
    {
        if events.len() == 0 {
            self
        } else {
            self.after_events(events.drop_last()).after_event(events.last())
        }
    }

    /// The world after a command of a client: the velocity of the client's
    /// entity is steered; for a client that the lobby does not know nothing
    /// changes.
    pub open spec fn after_input(self, id: ClientId, cmd: InputCommand) -> ServerState {
        if self.lobby.contains_key(id) {
            let entity = self.lobby[id] as int;
            let body = self.bodies[entity];
            ServerState {
                lobby: self.lobby,
                bodies: self.bodies.update(
                    entity,
                    Body {
                        owner: body.owner,
                        state: EntityState {
                            position: body.state.position,
                            velocity: steered(body.state.velocity, cmd),
                        },
                    },
                ),
            }
        } else {
            self
        }
    }

    /// The world after the payloads that one client sent during a tick: only the
    /// last well-formed one is applied.
    pub open spec fn after_batch(self, id: ClientId, batch: Seq<Seq<u8>>) -> ServerState {
        match last_command(batch) {
            Some(cmd) => self.after_input(id, cmd),
            None => self,
        }
    }

    /// The world after the batches of all clients, taken in order.
    pub open spec fn after_inbox(self, inbox: Seq<(ClientId, Seq<Seq<u8>>)>) -> ServerState
        decreases inbox.len(),
    {
        if inbox.len() == 0 {
            self
        } else {
            self.after_inbox(inbox.drop_last()).after_batch(inbox.last().0, inbox.last().1)
        }
    }

    /// The world after an entity was given a new state from outside.
    pub open spec fn after_commit(self, entity: nat, state: EntityState) -> ServerState {
        if entity < self.bodies.len() {
            ServerState {
                lobby: self.lobby,
                bodies: self.bodies.update(
                    entity as int,
                    Body { owner: self.bodies[entity as int].owner, state },
                ),
            }
        } else {
            self
        }
    }

    /// What a snapshot reports: for each client of the lobby the position of
    /// the entity that stands for it.
    pub open spec fn world(self) -> Map<ClientId, Vector3> {
        Map::new(
            |id: ClientId| self.lobby.contains_key(id),
            |id: ClientId| self.bodies[self.lobby[id] as int].state.position,
        )
    }

    /// The entries of a snapshot: one for each entity, in the order of the
    /// table.
    pub open spec fn roster(self) -> Seq<SnapshotEntry> {
        self.bodies.map_values(|body: Body| entry_of(body))
    }
}

/// What a snapshot says of an entity: whose it is and where it is.
pub open spec fn entry_of(body: Body) -> SnapshotEntry {
    SnapshotEntry { id: body.owner, position: body.state.position }
}

/// The authoritative world of a serving process.
pub struct ServerReplicator {
    lobby: Lobby,
    bodies: Vec<Body>,
}

impl View for ServerReplicator {
    type V = ServerState;

    closed spec fn view(&self) -> ServerState {
        ServerState { lobby: self.lobby@, bodies: self.bodies@ }
    }
}

impl ServerReplicator {
    /// The world before anybody connected.
    pub fn new() -> (server: ServerReplicator)
        ensures
            server@ == ServerState::empty(),
            server@.wf(),
    {
        ServerReplicator { lobby: Lobby::new(), bodies: Vec::new() }
    }

    /// Takes a client in. A client that is new to the lobby gets an entity in
    /// the spawn state; the entity of a client that the lobby knows is put back
    /// in the spawn state. Gives the handle of the client's entity; the table
    /// has grown by one exactly when the entity was made by this call.
    pub fn connect(&mut self, id: ClientId) -> (entity: EntityHandle)
        requires
            old(self)@.wf(),
        ensures
            final(self)@ == old(self)@.connect(id),
            final(self)@.wf(),
            final(self)@.lobby.contains_key(id),
            entity == final(self)@.lobby[id],
            final(self)@.bodies[entity as int] == (Body { owner: id, state: spawn_state() }),
            old(self)@.lobby.contains_key(id) ==> final(self)@.bodies.len() == old(
                self,
            )@.bodies.len(),
            !old(self)@.lobby.contains_key(id) ==> final(self)@.bodies.len() == old(
                self,
            )@.bodies.len() + 1,
    {
        let body = Body { owner: id, state: EntityState::spawn() };
        match self.lobby.get(id) {
            Some(entity) => {
                self.bodies.set(entity, body);
                entity
            },
            None => {
                let entity: usize = self.bodies.len();
                self.bodies.push(body);
                self.lobby.insert(id, entity);
                entity
            },
        }
    }

    /// Takes in what the transport reports of a peer. For a connection, gives
    /// the handle of the entity that stands for the client.
    pub fn handle_event(&mut self, event: ConnectionEvent) -> (entity: Option<EntityHandle>)
        requires
            old(self)@.wf(),
        ensures
            final(self)@ == old(self)@.after_event(event),
            final(self)@.wf(),
            match event {
                ConnectionEvent::Connected(id) => final(self)@.lobby.contains_key(id)
                    && entity == Some(final(self)@.lobby[id] as EntityHandle),
                ConnectionEvent::Disconnected(_) => entity is None,
            },
    {
        match event {
            ConnectionEvent::Connected(id) => Some(self.connect(id)),
            ConnectionEvent::Disconnected(_) => None,
        }
    }

    /// Takes in the events of a tick, in order. The entities that were made are
    /// those from the old end of the table to the new one.
    pub fn handle_events(&mut self, events: &Vec<ConnectionEvent>)
        requires
            old(self)@.wf(),
        ensures
            final(self)@ == old(self)@.after_events(events@),
            final(self)@.wf(),
    {
        let mut i: usize = 0;
        while i < events.len()
            invariant
                i <= events@.len(),
                self@.wf(),
                self@ == old(self)@.after_events(events@.take(i as int)),
            decreases events@.len() - i,
        {
            self.handle_event(events[i]);
            proof {
                assert(events@.take(i + 1).drop_last() == events@.take(i as int));
            }
            i += 1;
        }
        proof {
            assert(events@.take(i as int) == events@);
        }
    }

    /// Steers the entity of a client by a command. Gives the handle of the
    /// entity, or nothing for a client that the lobby does not know.
    pub fn apply_input(&mut self, id: ClientId, cmd: &InputCommand) -> (entity: Option<
        EntityHandle,
    >)
        requires
            old(self)@.wf(),
        ensures
            final(self)@ == old(self)@.after_input(id, *cmd),
            final(self)@.wf(),
            entity is Some == old(self)@.lobby.contains_key(id),
            entity matches Some(steered_entity) ==> steered_entity == old(self)@.lobby[id],
    {
        match self.lobby.get(id) {
            Some(entity) => {
                let body = self.bodies[entity];
                let state = body.state.after_input(cmd);
                self.bodies.set(entity, Body { owner: body.owner, state });
                Some(entity)
            },
            None => None,
        }
    }

    /// Takes in what one client sent during a tick: applies the command of the
    /// last well-formed payload and discards the others. Gives that command.
    pub fn ingest(&mut self, id: ClientId, payloads: &Vec<Vec<u8>>) -> (applied: Option<
        InputCommand,
    >)
        requires
            old(self)@.wf(),
        ensures
            final(self)@ == old(self)@.after_batch(id, payloads_of(payloads@)),
            final(self)@.wf(),
            applied == last_command(payloads_of(payloads@)),
    {
        let cmd = select_last(payloads);
        match cmd {
            Some(c) => {
                self.apply_input(id, &c);
            },
            None => {},
        }
        cmd
    }

    /// Takes in what all clients sent during a tick, batch by batch.
    pub fn ingest_all(&mut self, inbox: &Vec<ClientBatch>)
        requires
            old(self)@.wf(),
        ensures
            final(self)@ == old(self)@.after_inbox(inbox_of(inbox@)),
            final(self)@.wf(),
    {
        let mut i: usize = 0;
        while i < inbox.len()
            invariant
                i <= inbox@.len(),
                self@.wf(),
                self@ == old(self)@.after_inbox(inbox_of(inbox@).take(i as int)),
            decreases inbox@.len() - i,
        {
            self.ingest(inbox[i].id, &inbox[i].payloads);
            proof {
                assert(inbox_of(inbox@).take(i + 1).drop_last() == inbox_of(inbox@).take(
                    i as int,
                ));
            }
            i += 1;
        }
        proof {
            assert(inbox_of(inbox@).take(i as int) == inbox_of(inbox@));
        }
    }

    /// The complete world: for each client where its entity is now, in the
    /// order of the table.
    pub fn snapshot(&self) -> (snapshot: Snapshot)
        requires
            self@.wf(),
        ensures
            snapshot.entries() == self@.roster(),
            snapshot@ == self@.world(),
            distinct_ids(snapshot.entries()),
            snapshot.entries().len() == self@.lobby.len(),
    {
        let mut snapshot = Snapshot::new();
        let mut i: usize = 0;
        while i < self.bodies.len()
            invariant
                i <= self.bodies@.len(),
                snapshot.entries() == self@.roster().take(i as int),
            decreases self.bodies@.len() - i,
        {
            let body = self.bodies[i];
            snapshot.record(body.owner, body.state.position);
            i += 1;
        }
        proof {
            roster_properties(self@);
        }
        snapshot
    }

    /// The payload to broadcast: the snapshot of the world as it is now.
    pub fn broadcast_payload(&self) -> (payload: Vec<u8>)
        requires
            self@.wf(),
        ensures
            payload@ == snapshot_wire(self@.roster()),
            parse_snapshot(payload@) == Some(self@.roster()),
            parse_world(payload@) == Some(self@.world()),
    {
        let snapshot = self.snapshot();
        encode_snapshot(&snapshot)
    }

    /// One tick of the server: takes in the events, then the input of every
    /// client, and gives the payload to broadcast.
    pub fn step(
        &mut self,
        events: &Vec<ConnectionEvent>,
        inbox: &Vec<ClientBatch>,
    ) -> (payload: Vec<u8>)
        requires
            old(self)@.wf(),
        ensures
            final(self)@ == old(self)@.after_events(events@).after_inbox(inbox_of(inbox@)),
            final(self)@.wf(),
            payload@ == snapshot_wire(final(self)@.roster()),
            parse_world(payload@) == Some(final(self)@.world()),
    {
        self.handle_events(events);
        self.ingest_all(inbox);
        self.broadcast_payload()
    }

    /// Gives an entity the state that the simulation has computed for it.
    /// Reports whether there is such an entity.
    pub fn commit(&mut self, entity: EntityHandle, state: EntityState) -> (found: bool)
        requires
            old(self)@.wf(),
        ensures
            final(self)@ == old(self)@.after_commit(entity as nat, state),
            final(self)@.wf(),
            found == (entity < old(self)@.bodies.len()),
    {
        if entity < self.bodies.len() {
            let owner = self.bodies[entity].owner;
            self.bodies.set(entity, Body { owner, state });
            true
        } else {
            false
        }
    }

    /// The lobby.
    pub fn lobby(&self) -> (lobby: &Lobby)
        ensures
            lobby@ == self@.lobby,
    {
        &self.lobby
    }

    /// The number of entities in the table.
    pub fn entity_count(&self) -> (n: usize)
        ensures
            n == self@.bodies.len(),
    {
        self.bodies.len()
    }

    /// The number of clients in the lobby.
    pub fn client_count(&self) -> (n: usize)
        ensures
            n == self@.lobby.len(),
    {
        self.lobby.len()
    }

    /// The entity that stands for a client.
    pub fn entity_of(&self, id: ClientId) -> (entity: Option<EntityHandle>)
        ensures
            entity is Some == self@.lobby.contains_key(id),
            entity matches Some(found) ==> found == self@.lobby[id],
    {
        self.lobby.get(id)
    }

    /// An entity of the table.
    pub fn body(&self, entity: EntityHandle) -> (body: Option<Body>)
        ensures
            body == (if entity < self@.bodies.len() {
                Some(self@.bodies[entity as int])
            } else {
                None
            }),
    {
        if entity < self.bodies.len() {
            Some(self.bodies[entity])
        } else {
            None
        }
    }

    /// The state of the entity that stands for a client.
    pub fn state_of(&self, id: ClientId) -> (state: Option<EntityState>)
        requires
            self@.wf(),
        ensures
            state == (if self@.lobby.contains_key(id) {
                Some(self@.bodies[self@.lobby[id] as int].state)
            } else {
                None
            }),
    {
        match self.lobby.get(id) {
            Some(entity) => Some(self.bodies[entity].state),
            None => None,
        }
    }
}

/// Finds the command of the last well-formed payload of a batch.
pub fn select_last(payloads: &Vec<Vec<u8>>) -> (cmd: Option<InputCommand>)
    ensures
        cmd == last_command(payloads_of(payloads@)),
{
    let ghost batch = payloads_of(payloads@);
    let mut i: usize = payloads.len();
    proof {
        assert(batch.take(i as int) == batch);
    }
    while i > 0
        invariant
            i <= payloads@.len(),
            batch == payloads_of(payloads@),
            last_command(batch) == last_command(batch.take(i as int)),
        decreases i,
    {
        i -= 1;
        proof {
            assert(batch.take(i + 1).drop_last() == batch.take(i as int));
        }
        match decode_input(payloads[i].as_slice()) {
            Some(cmd) => {
                return Some(cmd);
            },
            None => {},
        }
    }
    None
}

/// The roster has one entry for each client of the lobby and says where the
/// entity of that client is. There are as many entities as clients.
pub proof fn roster_properties(state: ServerState)
    requires
        state.wf(),
    ensures
        distinct_ids(state.roster()),
        entries_map(state.roster()) == state.world(),
        state.roster().len() == state.lobby.len(),
        state.bodies.len() == state.lobby.len(),
{
    let roster = state.roster();
    entries_map_domain(roster);
    distinct_entries_count(roster);
    assert forall|id: ClientId| #[trigger] state.world().contains_key(id) implies entries_map(
        roster,
    ).contains_key(id) && entries_map(roster)[id] == state.world()[id] by {
        let k = state.lobby[id] as int;
        entries_map_last_entry(roster, k);
    }
    assert(state.world().dom() =~= state.lobby.dom());
}

/// No two clients share an entity.
pub proof fn lobby_is_injective(state: ServerState, first: ClientId, second: ClientId)
    requires
        state.wf(),
        state.lobby.contains_key(first),
        state.lobby.contains_key(second),
        first != second,
    ensures
        state.lobby[first] != state.lobby[second],
{
}

/// The events that report the connection of the given clients, in order.
pub open spec fn connections(ids: Seq<ClientId>) -> Seq<ConnectionEvent> {
    ids.map_values(|id: ClientId| ConnectionEvent::Connected(id))
}

/// After the connection of clients that are new to the lobby and differ from
/// each other, the lobby has one more entry for each of them, every one mapped
/// to an entity of its own in the spawn state, and nothing else has changed.
pub proof fn connects_extend_lobby(start: ServerState, ids: Seq<ClientId>)
    requires
        start.wf(),
        ids.no_duplicates(),
        forall|i: int| 0 <= i < ids.len() ==> !start.lobby.contains_key(#[trigger] ids[i]),
    ensures
        ({
            let end = start.after_events(connections(ids));
            &&& end.wf()
            &&& end.bodies.len() == start.bodies.len() + ids.len()
            &&& end.bodies.take(start.bodies.len() as int) == start.bodies
            &&& end.lobby.dom() == start.lobby.dom().union(ids.to_set())
            &&& end.lobby.len() == start.lobby.len() + ids.len()
            &&& forall|id: ClientId| #[trigger]
                start.lobby.contains_key(id) ==> end.lobby[id] == start.lobby[id]
            &&& forall|i: int|
                0 <= i < ids.len() ==> end.lobby[#[trigger] ids[i]] == start.bodies.len() + i
                    && end.bodies[start.bodies.len() + i] == (Body {
                    owner: ids[i],
                    state: spawn_state(),
                })
        }),
    decreases ids.len(),
{
    if ids.len() > 0 {
        let front = ids.drop_last();
        let end = start.after_events(connections(ids));
        assert(connections(ids).drop_last() == connections(front));
        connects_extend_lobby(start, front);
        assert forall|i: int| 0 <= i < ids.len() implies end.lobby[#[trigger] ids[i]]
            == start.bodies.len() + i && end.bodies[start.bodies.len() + i] == (Body {
            owner: ids[i],
            state: spawn_state(),
        }) by {
            if i < front.len() {
                assert(front[i] == ids[i]);
            }
        }
    }
}

/// After the connection of clients that differ from each other, a server that
/// knew nobody has exactly one lobby entry for each of them, and the entities
/// that stand for them are as many and differ from each other.
pub proof fn connects_fill_lobby(ids: Seq<ClientId>)
    requires
        ids.no_duplicates(),
    ensures
        ({
            let end = ServerState::empty().after_events(connections(ids));
            &&& end.wf()
            &&& end.lobby.dom() == ids.to_set()
            &&& end.lobby.len() == ids.len()
            &&& end.bodies.len() == ids.len()
            &&& forall|i: int| 0 <= i < ids.len() ==> end.lobby[#[trigger] ids[i]] == i
            &&& forall|first: ClientId, second: ClientId|
                end.lobby.contains_key(first) && end.lobby.contains_key(second) && first
                    != second ==> end.lobby[first] != end.lobby[second]
        }),
{
    connects_extend_lobby(ServerState::empty(), ids);
}

/// A connection under an identity that the lobby knows makes no entity: the
/// lobby and the length of the table stay as they are, the entity that stands
/// for the identity is put back in the spawn state, and no other entity
/// changes.
pub proof fn reconnect_resets(state: ServerState, id: ClientId)
    requires
        state.wf(),
        state.lobby.contains_key(id),
    ensures
        state.connect(id).wf(),
        state.connect(id).lobby == state.lobby,
        state.connect(id).bodies.len() == state.bodies.len(),
        state.connect(id).bodies[state.lobby[id] as int] == (Body {
            owner: id,
            state: spawn_state(),
        }),
        forall|entity: int|
            0 <= entity < state.bodies.len() && entity != state.lobby[id]
                ==> #[trigger] state.connect(id).bodies[entity] == state.bodies[entity],
{
}

/// However often and in whatever order clients connect, every client that
/// connected has exactly one entity: the lobby knows those who were known or
/// have connected, and the table has as many entities as the lobby has clients.
pub proof fn connects_make_one_entity_each(start: ServerState, ids: Seq<ClientId>)
    requires
        start.wf(),
    ensures
        start.after_events(connections(ids)).wf(),
        start.after_events(connections(ids)).lobby.dom() == start.lobby.dom().union(
            ids.to_set(),
        ),
        start.after_events(connections(ids)).bodies.len() == start.after_events(
            connections(ids),
        ).lobby.len(),
    decreases ids.len(),
{
    if ids.len() > 0 {
        let front = ids.drop_last();
        assert(connections(ids).drop_last() == connections(front));
        connects_make_one_entity_each(start, front);
        assert(ids.to_set() =~= front.to_set().insert(ids.last())) by {
            assert forall|id: ClientId| ids.to_set().contains(id) implies front.to_set().insert(
                ids.last(),
            ).contains(id) by {
                let i = choose|i: int| 0 <= i < ids.len() && ids[i] == id;
                if i < front.len() {
                    assert(front[i] == id);
                }
            }
        }
    }
    roster_properties(start.after_events(connections(ids)));
}

/// A disconnection leaves the world as it is: the entry and the entity stay.
pub proof fn disconnect_changes_nothing(state: ServerState, id: ClientId)
    ensures
        state.after_event(ConnectionEvent::Disconnected(id)) == state,
{
}

/// Of the payloads of a tick only the last counts: whatever came before it, the
/// world is as if the last command alone had been applied.
pub proof fn last_write_wins(
    state: ServerState,
    id: ClientId,
    earlier: Seq<Seq<u8>>,
    last: InputCommand,
)
    ensures
        last_command(earlier.push(input_wire(last))) == Some(last),
        state.after_batch(id, earlier.push(input_wire(last))) == state.after_input(id, last),
        state.after_batch(id, earlier.push(input_wire(last))) == state.after_batch(
            id,
            seq![input_wire(last)],
        ),
{
    input_round_trip(last, Seq::empty());
}

/// Two commands in one tick give the velocity that the second alone gives.
pub proof fn second_command_wins(
    state: ServerState,
    id: ClientId,
    first: InputCommand,
    second: InputCommand,
)
    ensures
        state.after_batch(id, seq![input_wire(first), input_wire(second)]) == state.after_batch(
            id,
            seq![input_wire(second)],
        ),
        state.after_batch(id, seq![input_wire(first), input_wire(second)]) == state.after_input(
            id,
            second,
        ),
{
    last_write_wins(state, id, seq![input_wire(first)], second);
    assert(seq![input_wire(first)].push(input_wire(second)) == seq![
        input_wire(first),
        input_wire(second),
    ]);
}

/// A malformed payload is dropped: a batch counts as it would without it.
pub proof fn malformed_input_is_dropped(
    state: ServerState,
    id: ClientId,
    before: Seq<Seq<u8>>,
    payload: Seq<u8>,
    after: Seq<Seq<u8>>,
)
    requires
        parse_input(payload) is None,
    ensures
        last_command(before.push(payload) + after) == last_command(before + after),
        state.after_batch(id, before.push(payload) + after) == state.after_batch(
            id,
            before + after,
        ),
    decreases after.len(),
{
    if after.len() == 0 {
        assert(before.push(payload).drop_last() == before);
    } else {
        let with = before.push(payload) + after;
        let without = before + after;
        assert(with.drop_last() == before.push(payload) + after.drop_last());
        assert(without.drop_last() == before + after.drop_last());
        malformed_input_is_dropped(state, id, before, payload, after.drop_last());
    }
}

/// The input of a client leaves the world well formed and changes neither the
/// lobby nor the length of the table nor where any entity is.
pub proof fn input_keeps_the_lobby(state: ServerState, id: ClientId, batch: Seq<Seq<u8>>)
    requires
        state.wf(),
    ensures
        state.after_batch(id, batch).wf(),
        state.after_batch(id, batch).lobby == state.lobby,
        state.after_batch(id, batch).world() == state.world(),
        state.after_batch(id, batch).bodies.len() == state.bodies.len(),
{
}

/// Events never take away: the world stays well formed, the lobby forgets
/// nobody and keeps every client at its entity, and every entity keeps its
/// place and its owner.
pub proof fn events_keep_every_entity(state: ServerState, events: Seq<ConnectionEvent>)
    requires
        state.wf(),
    ensures
        state.after_events(events).wf(),
        state.lobby.dom().subset_of(state.after_events(events).lobby.dom()),
        forall|id: ClientId| #[trigger]
            state.lobby.contains_key(id) ==> state.after_events(events).lobby[id]
                == state.lobby[id],
        state.bodies.len() <= state.after_events(events).bodies.len() <= state.bodies.len()
            + events.len(),
        forall|entity: int|
            0 <= entity < state.bodies.len() ==> (#[trigger] state.after_events(
                events,
            ).bodies[entity]).owner == state.bodies[entity].owner,
    decreases events.len(),
{
    if events.len() > 0 {
        events_keep_every_entity(state, events.drop_last());
    }
}

/// Input only steers: the world stays well formed, the lobby and the length of
/// the table stay as they are, and every entity keeps its owner and its
/// position.
pub proof fn input_only_steers(state: ServerState, inbox: Seq<(ClientId, Seq<Seq<u8>>)>)
    requires
        state.wf(),
    ensures
        state.after_inbox(inbox).wf(),
        state.after_inbox(inbox).lobby == state.lobby,
        state.after_inbox(inbox).world() == state.world(),
        state.after_inbox(inbox).roster() == state.roster(),
        state.after_inbox(inbox).bodies.len() == state.bodies.len(),
        forall|entity: int|
            0 <= entity < state.bodies.len() ==> {
                let body = #[trigger] state.after_inbox(inbox).bodies[entity];
                body.owner == state.bodies[entity].owner && body.state.position
                    == state.bodies[entity].state.position
            },
    decreases inbox.len(),
{
    if inbox.len() > 0 {
        input_only_steers(state, inbox.drop_last());
    }
}

} // verus!
