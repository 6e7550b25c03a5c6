//! The two messages of the protocol: what a client sends and what the server
//! broadcasts.

use crate::scalar::Vector2;
use crate::scalar::Vector3;
use vstd::prelude::*;

verus! {

/// The number by which the transport knows a connected peer.
pub type ClientId = u64;

/// What a client asks of its entity for one tick: a direction to move in and
/// whether a jump was started.
#[derive(Clone, Copy, Debug, PartialEq, Eq, Structural)]
pub struct InputCommand {
    pub direction: Vector2,
    pub jump: bool,
}

impl InputCommand {
    /// The command that the state of the movement keys and of the jump key stands for.
    pub fn from_keys(right: bool, left: bool, up: bool, down: bool, jump: bool) -> (cmd:
        InputCommand)
        ensures
            cmd.direction == (Vector2 {
                x: crate::scalar::axis_value(right, left),
                y: crate::scalar::axis_value(up, down),
            }),
            cmd.jump == jump,
    {
        InputCommand { direction: Vector2::from_keys(right, left, up, down), jump }
    }
}

/// One line of a snapshot: where the entity of one client is.
#[derive(Clone, Copy, Debug, PartialEq, Eq, Structural)]
pub struct SnapshotEntry {
    pub id: ClientId,
    pub position: Vector3,
}

/// The mapping that a sequence of entries stands for, read in order: a later
/// entry for a client supersedes an earlier one.
pub open spec fn entries_map(entries: Seq<SnapshotEntry>) -> Map<ClientId, Vector3>
    decreases entries.len(),
{
    if entries.len() == 0 {
        Map::empty()
    } else {
        entries_map(entries.drop_last()).insert(entries.last().id, entries.last().position)
    }
}

/// Whether no client has two entries.
pub open spec fn distinct_ids(entries: Seq<SnapshotEntry>) -> bool {
    forall|i: int, j: int|
        0 <= i < j < entries.len() ==> (#[trigger] entries[i]).id != (#[trigger] entries[j]).id
}

/// The clients of `entries_map` are those that have an entry, and there are
/// finitely many of them.
pub proof fn entries_map_domain(entries: Seq<SnapshotEntry>)
    ensures
        entries_map(entries).dom().finite(),
        entries_map(entries).dom().len() <= entries.len(),
        forall|id: ClientId| #[trigger]
            entries_map(entries).contains_key(id) <==> exists|i: int|
                0 <= i < entries.len() && (#[trigger] entries[i]).id == id,
    decreases entries.len(),
{
    if entries.len() > 0 {
        let front = entries.drop_last();
        entries_map_domain(front);
        assert forall|id: ClientId|
            (exists|i: int|
                0 <= i < entries.len() && (#[trigger] entries[i]).id
                    == id) implies #[trigger] entries_map(entries).contains_key(id) by {
            let i = choose|i: int| 0 <= i < entries.len() && (#[trigger] entries[i]).id == id;
            if i < entries.len() - 1 {
                assert(front[i].id == id);
            }
        }
    }
}

/// Where a client is according to the entries: the position in its last entry.
pub proof fn entries_map_last_entry(entries: Seq<SnapshotEntry>, i: int)
    requires
        0 <= i < entries.len(),
        forall|j: int| i < j < entries.len() ==> (#[trigger] entries[j]).id != entries[i].id,
    ensures
        entries_map(entries).contains_key(entries[i].id),
        entries_map(entries)[entries[i].id] == entries[i].position,
    decreases entries.len(),
{
    if i < entries.len() - 1 {
        entries_map_last_entry(entries.drop_last(), i);
    }
}

/// Entries of distinct clients stand for a mapping with as many clients as
/// there are entries.
pub proof fn distinct_entries_count(entries: Seq<SnapshotEntry>)
    requires
        distinct_ids(entries),
    ensures
        entries_map(entries).dom().finite(),
        entries_map(entries).dom().len() == entries.len(),
    decreases entries.len(),
{
    if entries.len() > 0 {
        let front = entries.drop_last();
        distinct_entries_count(front);
        entries_map_domain(front);
    }
}

/// The complete world as the server knows it: for each client the position of
/// its entity. Entries are kept in the order in which they were recorded; a
/// later entry for a client supersedes an earlier one.
#[derive(Clone, Debug)]
pub struct Snapshot {
    entries: Vec<SnapshotEntry>,
}

impl View for Snapshot {
    type V = Map<ClientId, Vector3>;

    /// The mapping from client to position.
    open spec fn view(&self) -> Map<ClientId, Vector3> {
        entries_map(self.entries())
    }
}

impl Snapshot {
    /// The entries in the order in which they were recorded.
    pub closed spec fn entries(&self) -> Seq<SnapshotEntry> {
        self.entries@
    }

    /// The snapshot of a world without entities.
    pub fn new() -> (snapshot: Snapshot)
        ensures
            snapshot.entries() == Seq::<SnapshotEntry>::empty(),
            snapshot@ == Map::<ClientId, Vector3>::empty(),
    {
        Snapshot { entries: Vec::new() }
    }

    /// The snapshot that holds the given entries in their order.
    pub fn from_entries(entries: Vec<SnapshotEntry>) -> (snapshot: Snapshot)
        ensures
            snapshot.entries() == entries@,
    {
        Snapshot { entries }
    }

    /// Records where a client is, superseding what was recorded for it before.
    pub fn record(&mut self, id: ClientId, position: Vector3)
        ensures
            final(self).entries() == old(self).entries().push(SnapshotEntry { id, position }),
            final(self)@ == old(self)@.insert(id, position),
    {
        let ghost before = self.entries@;
        self.entries.push(SnapshotEntry { id, position });
        proof {
            assert(self.entries@.drop_last() == before);
        }
    }

    /// The number of entries, superseded ones included.
    pub fn len(&self) -> (n: usize)
        ensures
            n == self.entries().len(),
    {
        self.entries.len()
    }

    /// Whether there is no entry.
    pub fn is_empty(&self) -> (empty: bool)
        ensures
            empty == (self.entries().len() == 0),
            empty == (self@ == Map::<ClientId, Vector3>::empty()),
    {
        proof {
            if self.entries@.len() > 0 {
                assert(self@.contains_key(self.entries@.last().id));
            }
        }
        self.entries.len() == 0
    }

    /// The entry at a place in the order of recording.
    pub fn entry(&self, index: usize) -> (entry: Option<SnapshotEntry>)
        ensures
            entry == (if index < self.entries().len() {
                Some(self.entries()[index as int])
            } else {
                None
            }),
    {
        if index < self.entries.len() {
            Some(self.entries[index])
        } else {
            None
        }
    }

    /// Where the snapshot says a client is.
    pub fn get(&self, id: ClientId) -> (position: Option<Vector3>)
        ensures
            position == (if self@.contains_key(id) {
                Some(self@[id])
            } else {
                None
            }),
    {
        let mut i: usize = self.entries.len();
        while i > 0
            invariant
                i <= self.entries@.len(),
                forall|j: int|
                    i <= j < self.entries@.len() ==> (#[trigger] self.entries@[j]).id != id,
            decreases i,
        {
            i -= 1;
            if self.entries[i].id == id {
                proof {
                    entries_map_last_entry(self.entries@, i as int);
                }
                return Some(self.entries[i].position);
            }
        }
        proof {
            entries_map_domain(self.entries@);
        }
        None
    }
}

} // verus!
