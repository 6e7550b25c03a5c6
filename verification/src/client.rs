//! The connecting side: sends the local input and shows what the server reports.

use crate::codec::decode_snapshot;
use crate::codec::encode_input;
use crate::codec::input_wire;
use crate::codec::parse_snapshot;
use crate::codec::payloads_of;
use crate::codec::snapshot_round_trip;
use crate::codec::snapshot_wire;
use crate::lobby::EntityHandle;
use crate::lobby::Lobby;
use crate::message::entries_map;
use crate::message::ClientId;
use crate::message::InputCommand;
use crate::message::Snapshot;
use crate::message::SnapshotEntry;
use crate::scalar::Vector3;
use crate::server::roster_properties;
use crate::server::ServerState;
use vstd::prelude::*;

verus! {

/// The placeholder that a client shows for a peer: where the server last said
/// the peer's entity was.
#[derive(Clone, Copy, Debug, PartialEq, Eq, Structural)]
pub struct Remote {
    pub owner: ClientId,
    pub position: Vector3,
}

/// What a client knows of the world, as a mathematical value: the table of its
/// placeholders, and the lobby that says which of them stands for which peer.
pub struct ClientState {
    pub lobby: Map<ClientId, nat>,
    pub remotes: Seq<Remote>,
}

impl ClientState {
    /// What a client knows before the first snapshot.
    pub open spec fn empty() -> ClientState {
        ClientState { lobby: Map::empty(), remotes: Seq::empty() }
    }

    /// The lobby and the table match one to one: every peer of the lobby is
    /// mapped to a placeholder of its own, and every placeholder stands for its
    /// owner.
    pub open spec fn wf(self) -> bool {
        &&& self.lobby.dom().finite()
        &&& forall|id: ClientId| #[trigger]
            self.lobby.contains_key(id) ==> self.lobby[id] < self.remotes.len()
                && self.remotes[self.lobby[id] as int].owner == id
        &&& forall|entity: int|
            0 <= entity < self.remotes.len() ==> self.lobby.contains_key(
                (#[trigger] self.remotes[entity]).owner,
            ) && self.lobby[self.remotes[entity].owner] == entity
    }

    /// One line of a snapshot is taken in: a peer that the lobby does not know
    /// gets a placeholder at the end of the table; the placeholder of the peer
    /// is put where the line says.
    pub open spec fn place(self, id: ClientId, position: Vector3) -> ClientState {
        if self.lobby.contains_key(id) {
            ClientState {
                lobby: self.lobby,
                remotes: self.remotes.update(self.lobby[id] as int, Remote { owner: id, position }),
            }
        } else {
            ClientState {
                lobby: self.lobby.insert(id, self.remotes.len()),
                remotes: self.remotes.push(Remote { owner: id, position }),
            }
        }
    }

    /// The entries of a snapshot are taken in, in order.
    pub open spec fn reconcile(self, entries: Seq<SnapshotEntry>) -> ClientState
        decreases entries.len(),
    {
        if entries.len() == 0 {
            self
        } else {
            self.reconcile(entries.drop_last()).place(entries.last().id, entries.last().position)
        }
    }

    /// A payload is taken in: a snapshot is reconciled, anything else is dropped.
    pub open spec fn after_payload(self, payload: Seq<u8>) -> ClientState {
        match parse_snapshot(payload) {
            Some(entries) => self.reconcile(entries),
            None => self,
        }
    }

    /// The payloads of a tick are taken in, oldest first.
    pub open spec fn after_payloads(self, payloads: Seq<Seq<u8>>) -> ClientState
        decreases payloads.len(),
    {
        if payloads.len() == 0 {
            self
        } else {
            self.after_payloads(payloads.drop_last()).after_payload(payloads.last())
        }
    }

    /// Where the client shows each peer.
    pub open spec fn world(self) -> Map<ClientId, Vector3> {
        Map::new(
            |id: ClientId| self.lobby.contains_key(id),
            |id: ClientId| self.remotes[self.lobby[id] as int].position,
        )
    }
}

/// What a connecting process shows of its peers.
pub struct ClientReplicator {
    lobby: Lobby,
    remotes: Vec<Remote>,
}

impl View for ClientReplicator {
    type V = ClientState;

    closed spec fn view(&self) -> ClientState {
        ClientState { lobby: self.lobby@, remotes: self.remotes@ }
    }
}

/// The payload to send for this tick's input. While the connection does not
/// stand there is none, and that is no error.
pub fn input_payload(connected: bool, cmd: &InputCommand) -> (payload: Option<Vec<u8>>)
    ensures
        payload is Some == connected,
        payload matches Some(bytes) ==> bytes@ == input_wire(*cmd),
{
    if connected {
        Some(encode_input(cmd))
    } else {
        None
    }
}

impl ClientReplicator {
    /// A client that has seen no snapshot yet.
    pub fn new() -> (client: ClientReplicator)
        ensures
            client@ == ClientState::empty(),
            client@.wf(),
    {
        ClientReplicator { lobby: Lobby::new(), remotes: Vec::new() }
    }

    /// Takes one line of a snapshot in. Gives the handle of the peer's
    /// placeholder and whether it was made by this call.
    pub fn place(&mut self, id: ClientId, position: Vector3) -> (placed: (EntityHandle, bool))
        requires
            old(self)@.wf(),
        ensures
            final(self)@ == old(self)@.place(id, position),
            final(self)@.wf(),
            placed.0 == final(self)@.lobby[id],
            placed.1 == !old(self)@.lobby.contains_key(id),
    {
        proof {
            place_properties(old(self)@, id, position);
        }
        match self.lobby.get(id) {
            Some(entity) => {
                self.remotes.set(entity, Remote { owner: id, position });
                (entity, false)
            },
            None => {
                let entity: usize = self.remotes.len();
                self.remotes.push(Remote { owner: id, position });
                self.lobby.insert(id, entity);
                (entity, true)
            },
        }
    }

    /// Takes a snapshot in: every peer in it gets a placeholder if it has none,
    /// and every placeholder is put where the snapshot says.
    pub fn apply_snapshot(&mut self, snapshot: &Snapshot)
        requires
            old(self)@.wf(),
        ensures
            final(self)@ == old(self)@.reconcile(snapshot.entries()),
            final(self)@.wf(),
            final(self)@.world() == old(self)@.world().union_prefer_right(snapshot@),
    {
        let n: usize = snapshot.len();
        let mut i: usize = 0;
        while i < n
            invariant
                n == snapshot.entries().len(),
                i <= n,
                self@.wf(),
                self@ == old(self)@.reconcile(snapshot.entries().take(i as int)),
            decreases n - i,
        {
            let entry = snapshot.entry(i).unwrap();
            self.place(entry.id, entry.position);
            proof {
                assert(snapshot.entries().take(i + 1).drop_last() == snapshot.entries().take(
                    i as int,
                ));
            }
            i += 1;
        }
        proof {
            assert(snapshot.entries().take(n as int) == snapshot.entries());
            reconcile_properties(old(self)@, snapshot.entries());
        }
    }

    /// Takes a payload in. A payload that holds no snapshot is dropped and
    /// changes nothing. Reports whether the payload held a snapshot.
    pub fn receive(&mut self, payload: &[u8]) -> (accepted: bool)
        requires
            old(self)@.wf(),
        ensures
            final(self)@ == old(self)@.after_payload(payload@),
            final(self)@.wf(),
            accepted == parse_snapshot(payload@) is Some,
            !accepted ==> final(self)@ == old(self)@,
    {
        match decode_snapshot(payload) {
            Some(snapshot) => {
                self.apply_snapshot(&snapshot);
                true
            },
            None => false,
        }
    }

    /// Takes the payloads of a tick in, oldest first.
    pub fn receive_all(&mut self, payloads: &Vec<Vec<u8>>)
        requires
            old(self)@.wf(),
        ensures
            final(self)@ == old(self)@.after_payloads(payloads_of(payloads@)),
            final(self)@.wf(),
    {
        let ghost batch = payloads_of(payloads@);
        let mut i: usize = 0;
        while i < payloads.len()
            invariant
                i <= payloads@.len(),
                batch == payloads_of(payloads@),
                self@.wf(),
                self@ == old(self)@.after_payloads(batch.take(i as int)),
            decreases payloads@.len() - i,
        {
            self.receive(payloads[i].as_slice());
            proof {
                assert(batch.take(i + 1).drop_last() == batch.take(i as int));
            }
            i += 1;
        }
        proof {
            assert(batch.take(i as int) == batch);
        }
    }

    /// One tick of the client. While the connection stands, the input is sent
    /// and what arrived is taken in. While it does not, nothing is sent and
    /// nothing is taken in.
    pub fn step(
        &mut self,
        connected: bool,
        input: &InputCommand,
        incoming: &Vec<Vec<u8>>,
    ) -> (payload: Option<Vec<u8>>)
        requires
            old(self)@.wf(),
        ensures
            final(self)@.wf(),
            final(self)@ == (if connected {
                old(self)@.after_payloads(payloads_of(incoming@))
            } else {
                old(self)@
            }),
            payload is Some == connected,
            payload matches Some(bytes) ==> bytes@ == input_wire(*input),
    {
        if connected {
            self.receive_all(incoming);
        }
        input_payload(connected, input)
    }

    /// The lobby.
    pub fn lobby(&self) -> (lobby: &Lobby)
        ensures
            lobby@ == self@.lobby,
    {
        &self.lobby
    }

    /// The number of placeholders.
    pub fn entity_count(&self) -> (n: usize)
        ensures
            n == self@.remotes.len(),
    {
        self.remotes.len()
    }

    /// The placeholder that stands for a peer.
    pub fn entity_of(&self, id: ClientId) -> (entity: Option<EntityHandle>)
        ensures
            entity is Some == self@.lobby.contains_key(id),
            entity matches Some(found) ==> found == self@.lobby[id],
    {
        self.lobby.get(id)
    }

    /// A placeholder of the table.
    pub fn remote(&self, entity: EntityHandle) -> (remote: Option<Remote>)
        ensures
            remote == (if entity < self@.remotes.len() {
                Some(self@.remotes[entity as int])
            } else {
                None
            }),
    {
        if entity < self.remotes.len() {
            Some(self.remotes[entity])
        } else {
            None
        }
    }

    /// Where the client shows a peer.
    pub fn position_of(&self, id: ClientId) -> (position: Option<Vector3>)
        requires
            self@.wf(),
        ensures
            position == (if self@.world().contains_key(id) {
                Some(self@.world()[id])
            } else {
                None
            }),
    {
        match self.lobby.get(id) {
            Some(entity) => Some(self.remotes[entity].position),
            None => None,
        }
    }
}

/// Taking one line in keeps the lobby and the table matched, puts the peer
/// where the line says and leaves every other peer where it was.
pub proof fn place_properties(state: ClientState, id: ClientId, position: Vector3)
    requires
        state.wf(),
    ensures
        state.place(id, position).wf(),
        state.place(id, position).world() == state.world().insert(id, position),
        state.place(id, position).lobby.dom() == state.lobby.dom().insert(id),
        forall|other: ClientId| #[trigger]
            state.lobby.contains_key(other) ==> state.place(id, position).lobby[other]
                == state.lobby[other],
        state.lobby.contains_key(id) ==> state.place(id, position).lobby == state.lobby
            && state.place(id, position).remotes.len() == state.remotes.len(),
        !state.lobby.contains_key(id) ==> state.place(id, position).remotes.len()
            == state.remotes.len() + 1,
        forall|entity: int|
            0 <= entity < state.remotes.len() ==> (#[trigger] state.place(
                id,
                position,
            ).remotes[entity]).owner == state.remotes[entity].owner,
{
}

/// Taking a snapshot in keeps the lobby and the table matched, puts every peer
/// of the snapshot where the snapshot says, leaves every other peer where it
/// was, and keeps every placeholder that was there.
pub proof fn reconcile_properties(state: ClientState, entries: Seq<SnapshotEntry>)
    requires
        state.wf(),
    ensures
        state.reconcile(entries).wf(),
        state.reconcile(entries).world() == state.world().union_prefer_right(
            entries_map(entries),
        ),
        state.reconcile(entries).lobby.dom() == state.lobby.dom().union(
            entries_map(entries).dom(),
        ),
        forall|other: ClientId| #[trigger]
            state.lobby.contains_key(other) ==> state.reconcile(entries).lobby[other]
                == state.lobby[other],
        state.remotes.len() <= state.reconcile(entries).remotes.len() <= state.remotes.len()
            + entries.len(),
        forall|entity: int|
            0 <= entity < state.remotes.len() ==> (#[trigger] state.reconcile(
                entries,
            ).remotes[entity]).owner == state.remotes[entity].owner,
        entries_map(entries).dom().subset_of(state.lobby.dom()) ==> state.reconcile(entries).lobby
            == state.lobby && state.reconcile(entries).remotes.len() == state.remotes.len(),
    decreases entries.len(),
{
    if entries.len() > 0 {
        let front = entries.drop_last();
        reconcile_properties(state, front);
        place_properties(state.reconcile(front), entries.last().id, entries.last().position);
    }
}

/// Two well-formed states with the same lobby that show every peer at the same
/// place are the same state.
pub proof fn same_world_same_state(first: ClientState, second: ClientState)
    requires
        first.wf(),
        second.wf(),
        first.lobby == second.lobby,
        first.remotes.len() == second.remotes.len(),
        first.world() == second.world(),
    ensures
        first == second,
{
    assert forall|entity: int| 0 <= entity < first.remotes.len() implies first.remotes[entity]
        == second.remotes[entity] by {
        let owner = first.remotes[entity].owner;
        assert(first.world()[owner] == first.remotes[entity].position);
    }
    assert(first.remotes =~= second.remotes);
}

/// Taking the same snapshot in a second time changes nothing.
pub proof fn reconcile_is_idempotent(state: ClientState, entries: Seq<SnapshotEntry>)
    requires
        state.wf(),
    ensures
        state.reconcile(entries).reconcile(entries) == state.reconcile(entries),
{
    let once = state.reconcile(entries);
    reconcile_properties(state, entries);
    reconcile_properties(once, entries);
    let twice = once.reconcile(entries);
    assert(twice.world() =~= once.world());
    same_world_same_state(twice, once);
}

/// Receiving the same payload a second time changes nothing, whether it holds
/// a snapshot or not.
pub proof fn payload_is_idempotent(state: ClientState, payload: Seq<u8>)
    requires
        state.wf(),
    ensures
        state.after_payload(payload).after_payload(payload) == state.after_payload(payload),
{
    match parse_snapshot(payload) {
        Some(entries) => {
            reconcile_is_idempotent(state, entries);
        },
        None => {},
    }
}

/// A payload that holds no snapshot leaves the lobby and every placeholder as
/// they were.
pub proof fn malformed_snapshot_is_dropped(state: ClientState, payload: Seq<u8>)
    requires
        parse_snapshot(payload) is None,
    ensures
        state.after_payload(payload) == state,
{
}

/// What is shown after a snapshot depends on the mapping that the snapshot
/// stands for, not on the order of its entries.
pub proof fn reconcile_ignores_order(
    state: ClientState,
    first: Seq<SnapshotEntry>,
    second: Seq<SnapshotEntry>,
)
    requires
        state.wf(),
        entries_map(first) == entries_map(second),
    ensures
        state.reconcile(first).world() == state.reconcile(second).world(),
        state.reconcile(first).lobby.dom() == state.reconcile(second).lobby.dom(),
{
    reconcile_properties(state, first);
    reconcile_properties(state, second);
}

/// Whatever arrives, the lobby and the table stay matched, no peer is
/// forgotten and no placeholder changes its place or its owner.
pub proof fn payloads_only_add(state: ClientState, payloads: Seq<Seq<u8>>)
    requires
        state.wf(),
    ensures
        state.after_payloads(payloads).wf(),
        state.lobby.dom().subset_of(state.after_payloads(payloads).lobby.dom()),
        state.remotes.len() <= state.after_payloads(payloads).remotes.len(),
        forall|id: ClientId| #[trigger]
            state.lobby.contains_key(id) ==> state.after_payloads(payloads).lobby[id]
                == state.lobby[id],
        forall|entity: int|
            0 <= entity < state.remotes.len() ==> (#[trigger] state.after_payloads(
                payloads,
            ).remotes[entity]).owner == state.remotes[entity].owner,
    decreases payloads.len(),
{
    if payloads.len() > 0 {
        payloads_only_add(state, payloads.drop_last());
        let middle = state.after_payloads(payloads.drop_last());
        match parse_snapshot(payloads.last()) {
            Some(entries) => {
                reconcile_properties(middle, entries);
            },
            None => {},
        }
    }
}

/// What the server broadcasts is what its clients show: a client that takes
/// the broadcast in shows every client of the server where the server has it,
/// and every other peer where it showed it before. A client that had seen
/// nothing shows exactly the server's world.
pub proof fn broadcast_is_replicated(server: ServerState, client: ClientState)
    requires
        server.wf(),
        client.wf(),
        server.lobby.len() <= u64::MAX,
    ensures
        client.after_payload(snapshot_wire(server.roster())).wf(),
        client.after_payload(snapshot_wire(server.roster())).world()
            == client.world().union_prefer_right(server.world()),
        ClientState::empty().after_payload(snapshot_wire(server.roster())).world()
            == server.world(),
{
    let roster = server.roster();
    roster_properties(server);
    snapshot_round_trip(roster);
    reconcile_properties(client, roster);
    reconcile_properties(ClientState::empty(), roster);
}

} // verus!
