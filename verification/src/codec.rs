//! The binary form of the two messages.
//!
//! Messages are written and read by `bincode` in its default fixed-width
//! little-endian form. An input command is nine bytes: the two coordinates of the
//! direction, four bytes each, and one byte for the jump flag. A snapshot is an
//! eight-byte count followed by one record of twenty bytes for each entry: the
//! client's identity in eight bytes and the three coordinates in four bytes each.
//! A reader accepts bytes after the end of a message and ignores them.

use crate::message::ClientId;
use crate::message::InputCommand;
use crate::message::Snapshot;
use crate::message::SnapshotEntry;
use crate::message::entries_map;
use crate::scalar::Vector2;
use crate::scalar::Vector3;
use vstd::bytes::lemma_auto_spec_u32_to_from_le_bytes;
use vstd::bytes::lemma_auto_spec_u64_to_from_le_bytes;
use vstd::bytes::spec_u32_from_le_bytes;
use vstd::bytes::spec_u32_to_le_bytes;
use vstd::bytes::spec_u64_from_le_bytes;
use vstd::bytes::spec_u64_to_le_bytes;
use vstd::prelude::*;

verus! {

/// Length of an input command on the wire.
pub const INPUT_LEN: usize = 9;

/// Length of the count that starts a snapshot.
pub const COUNT_LEN: usize = 8;

/// Length of one record of a snapshot.
pub const RECORD_LEN: usize = 20;

/// The byte that stands for a flag.
pub open spec fn flag_byte(flag: bool) -> u8 {
    if flag {
        1
    } else {
        0
    }
}

/// The nine bytes of an input command, given by its fields.
pub open spec fn input_fields_wire(x: u32, y: u32, jump: bool) -> Seq<u8> {
    spec_u32_to_le_bytes(x) + spec_u32_to_le_bytes(y) + seq![flag_byte(jump)]
}

/// The fields that a reader takes from the start of `bytes`, if it accepts them:
/// it needs nine bytes, the ninth being 0 or 1.
pub open spec fn input_fields_parse(bytes: Seq<u8>) -> Option<(u32, u32, bool)> {
    if bytes.len() >= INPUT_LEN && bytes[8] <= 1 {
        Some(
            (
                spec_u32_from_le_bytes(bytes.subrange(0, 4)),
                spec_u32_from_le_bytes(bytes.subrange(4, 8)),
                bytes[8] == 1,
            ),
        )
    } else {
        None
    }
}

/// The twenty bytes of one record, given by its fields.
pub open spec fn record_wire(record: (u64, u32, u32, u32)) -> Seq<u8> {
    spec_u64_to_le_bytes(record.0) + spec_u32_to_le_bytes(record.1) + spec_u32_to_le_bytes(
        record.2,
    ) + spec_u32_to_le_bytes(record.3)
}

/// The records of a snapshot one after the other.
pub open spec fn records_wire(records: Seq<(u64, u32, u32, u32)>) -> Seq<u8>
    decreases records.len(),
{
    if records.len() == 0 {
        Seq::empty()
    } else {
        records_wire(records.drop_last()) + record_wire(records.last())
    }
}

/// The bytes of a snapshot: the number of records, then the records.
pub open spec fn snapshot_fields_wire(records: Seq<(u64, u32, u32, u32)>) -> Seq<u8> {
    spec_u64_to_le_bytes(records.len() as u64) + records_wire(records)
}

/// The number of records that the first eight bytes announce.
pub open spec fn announced_count(bytes: Seq<u8>) -> u64 {
    spec_u64_from_le_bytes(bytes.subrange(0, 8))
}

/// The record that starts at byte `8 + 20 * index`.
pub open spec fn record_at(bytes: Seq<u8>, index: int) -> (u64, u32, u32, u32) {
    let at = COUNT_LEN + RECORD_LEN * index;
    (
        spec_u64_from_le_bytes(bytes.subrange(at, at + 8)),
        spec_u32_from_le_bytes(bytes.subrange(at + 8, at + 12)),
        spec_u32_from_le_bytes(bytes.subrange(at + 12, at + 16)),
        spec_u32_from_le_bytes(bytes.subrange(at + 16, at + 20)),
    )
}

/// The records that a reader takes from the start of `bytes`, if it accepts them:
/// it needs the count and as many whole records as the count announces.
pub open spec fn snapshot_fields_parse(bytes: Seq<u8>) -> Option<Seq<(u64, u32, u32, u32)>> {
    if bytes.len() >= COUNT_LEN && COUNT_LEN + RECORD_LEN * announced_count(bytes) <= bytes.len() {
        Some(Seq::new(announced_count(bytes) as nat, |index: int| record_at(bytes, index)))
    } else {
        None
    }
}

/// The fields of an entry in the order of the wire.
pub open spec fn entry_fields(entry: SnapshotEntry) -> (u64, u32, u32, u32) {
    (entry.id, entry.position.x, entry.position.y, entry.position.z)
}

/// The entry with the given fields.
pub open spec fn fields_entry(record: (u64, u32, u32, u32)) -> SnapshotEntry {
    SnapshotEntry {
        id: record.0,
        position: Vector3 { x: record.1, y: record.2, z: record.3 },
    }
}

/// The bytes of an input command.
pub open spec fn input_wire(cmd: InputCommand) -> Seq<u8> {
    input_fields_wire(cmd.direction.x, cmd.direction.y, cmd.jump)
}

/// The input command that a payload holds, if it holds one.
pub open spec fn parse_input(bytes: Seq<u8>) -> Option<InputCommand> {
    match input_fields_parse(bytes) {
        Some((x, y, jump)) => Some(InputCommand { direction: Vector2 { x, y }, jump }),
        None => None,
    }
}

/// The bytes of a snapshot with the given entries.
pub open spec fn snapshot_wire(entries: Seq<SnapshotEntry>) -> Seq<u8> {
    snapshot_fields_wire(entries.map_values(|e: SnapshotEntry| entry_fields(e)))
}

/// The entries that a payload holds, if it holds a snapshot.
pub open spec fn parse_snapshot(bytes: Seq<u8>) -> Option<Seq<SnapshotEntry>> {
    match snapshot_fields_parse(bytes) {
        Some(records) => Some(records.map_values(|r: (u64, u32, u32, u32)| fields_entry(r))),
        None => None,
    }
}

/// The mapping that a payload holds, if it holds a snapshot.
pub open spec fn parse_world(bytes: Seq<u8>) -> Option<Map<ClientId, Vector3>> {
    match parse_snapshot(bytes) {
        Some(entries) => Some(entries_map(entries)),
        None => None,
    }
}

/// The payloads of a tick as plain byte sequences.
pub open spec fn payloads_of(payloads: Seq<Vec<u8>>) -> Seq<Seq<u8>> {
    payloads.map_values(|payload: Vec<u8>| payload@)
}

/// Calls `bincode::serialize` on a tuple of two `u32` and a `bool`.
///
/// Trusted: that the call succeeds and gives the two integers in four
/// little-endian bytes each, followed by one byte that is 1 for `true` and 0 for
/// `false`. The default options put no limit on the size, and writing into a
/// vector does not fail.
#[verifier::external_body]
fn serialize_input_fields(x: u32, y: u32, jump: bool) -> (written: Option<Vec<u8>>)
    ensures
        written is Some,
        written.unwrap()@ == input_fields_wire(x, y, jump),
{
    bincode::serialize(&(x, y, jump)).ok()
}

/// Calls `bincode::deserialize` for a tuple of two `u32` and a `bool`.
///
/// Trusted: that the call reads two integers of four little-endian bytes each and
/// one byte for the flag, fails when the input ends before the ninth byte or when
/// that byte is neither 0 nor 1, and does not look at what follows.
#[verifier::external_body]
fn deserialize_input_fields(bytes: &[u8]) -> (read: Option<(u32, u32, bool)>)
    ensures
        read == input_fields_parse(bytes@),
{
    bincode::deserialize::<(u32, u32, bool)>(bytes).ok()
}

/// Calls `bincode::serialize` on a vector of tuples of a `u64` and three `u32`.
///
/// Trusted: that the call succeeds and gives the length of the vector in eight
/// little-endian bytes, followed by the tuples in order, each as its four
/// integers in little-endian bytes.
#[verifier::external_body]
fn serialize_snapshot_fields(records: &Vec<(u64, u32, u32, u32)>) -> (written: Option<Vec<u8>>)
    ensures
        written is Some,
        written.unwrap()@ == snapshot_fields_wire(records@),
{
    bincode::serialize(records).ok()
}

/// Calls `bincode::deserialize` for a vector of tuples of a `u64` and three `u32`.
///
/// Trusted: that the call reads a count of eight little-endian bytes and then
/// that many tuples of twenty bytes, fails when the input ends before the last of
/// them, and does not look at what follows.
#[verifier::external_body]
fn deserialize_snapshot_fields(bytes: &[u8]) -> (read: Option<Vec<(u64, u32, u32, u32)>>)
    ensures
        read is Some == snapshot_fields_parse(bytes@) is Some,
        read matches Some(records) ==> snapshot_fields_parse(bytes@) == Some(records@),
{
    bincode::deserialize::<Vec<(u64, u32, u32, u32)>>(bytes).ok()
}

/// Writes an input command.
pub fn encode_input(cmd: &InputCommand) -> (bytes: Vec<u8>)
    ensures
        bytes@ == input_wire(*cmd),
        bytes@.len() == INPUT_LEN,
{
    proof {
        lemma_auto_spec_u32_to_from_le_bytes();
    }
    serialize_input_fields(cmd.direction.x, cmd.direction.y, cmd.jump).unwrap()
}

/// Reads an input command from the start of a payload. A payload that is too
/// short, or whose flag byte is neither 0 nor 1, holds none.
pub fn decode_input(bytes: &[u8]) -> (cmd: Option<InputCommand>)
    ensures
        cmd == parse_input(bytes@),
        cmd is Some <==> bytes@.len() >= INPUT_LEN && bytes@[8] <= 1,
{
    match deserialize_input_fields(bytes) {
        Some((x, y, jump)) => Some(InputCommand { direction: Vector2 { x, y }, jump }),
        None => None,
    }
}

/// Writes a snapshot: its entries in the order in which they were recorded.
pub fn encode_snapshot(snapshot: &Snapshot) -> (bytes: Vec<u8>)
    ensures
        bytes@ == snapshot_wire(snapshot.entries()),
        parse_snapshot(bytes@) == Some(snapshot.entries()),
        parse_world(bytes@) == Some(snapshot@),
{
    let n: usize = snapshot.len();
    let mut records: Vec<(u64, u32, u32, u32)> = Vec::with_capacity(n);
    let mut i: usize = 0;
    while i < n
        invariant
            n == snapshot.entries().len(),
            i <= n,
            records@ == snapshot.entries().take(i as int).map_values(
                |e: SnapshotEntry| entry_fields(e),
            ),
        decreases n - i,
    {
        let entry = snapshot.entry(i).unwrap();
        records.push((entry.id, entry.position.x, entry.position.y, entry.position.z));
        i += 1;
    }
    proof {
        assert(snapshot.entries().take(n as int) == snapshot.entries());
        snapshot_round_trip(snapshot.entries());
    }
    serialize_snapshot_fields(&records).unwrap()
}

/// Reads a snapshot from the start of a payload. A payload that is shorter than
/// the count, or than the records that the count announces, holds none.
pub fn decode_snapshot(bytes: &[u8]) -> (snapshot: Option<Snapshot>)
    ensures
        snapshot is Some == parse_snapshot(bytes@) is Some,
        snapshot matches Some(s) ==> parse_snapshot(bytes@) == Some(s.entries()) && parse_world(
            bytes@,
        ) == Some(s@),
        snapshot is Some <==> bytes@.len() >= COUNT_LEN && COUNT_LEN + RECORD_LEN
            * announced_count(bytes@) <= bytes@.len(),
{
    match deserialize_snapshot_fields(bytes) {
        Some(records) => {
            let n: usize = records.len();
            let mut entries: Vec<SnapshotEntry> = Vec::with_capacity(n);
            let mut i: usize = 0;
            while i < n
                invariant
                    n == records@.len(),
                    i <= n,
                    entries@ == records@.take(i as int).map_values(
                        |r: (u64, u32, u32, u32)| fields_entry(r),
                    ),
                decreases n - i,
            {
                let (id, x, y, z) = records[i];
                entries.push(SnapshotEntry { id, position: Vector3 { x, y, z } });
                i += 1;
            }
            Some(Snapshot::from_entries(entries))
        },
        None => None,
    }
}

/// A command that is written and read back is the same command, bit for bit,
/// whatever follows it in the payload.
pub proof fn input_round_trip(cmd: InputCommand, rest: Seq<u8>)
    ensures
        input_wire(cmd).len() == INPUT_LEN,
        parse_input(input_wire(cmd)) == Some(cmd),
        parse_input(input_wire(cmd) + rest) == Some(cmd),
{
    lemma_auto_spec_u32_to_from_le_bytes();
    let x = spec_u32_to_le_bytes(cmd.direction.x);
    let y = spec_u32_to_le_bytes(cmd.direction.y);
    let wire = input_wire(cmd);
    let longer = wire + rest;
    assert(wire.subrange(0, 4) == x);
    assert(wire.subrange(4, 8) == y);
    assert(longer.subrange(0, 4) == x);
    assert(longer.subrange(4, 8) == y);
}

/// The records of a snapshot take twenty bytes each, in order.
pub proof fn records_wire_layout(records: Seq<(u64, u32, u32, u32)>)
    ensures
        records_wire(records).len() == RECORD_LEN * records.len(),
        forall|i: int|
            0 <= i < records.len() ==> #[trigger] records_wire(records).subrange(
                RECORD_LEN * i,
                RECORD_LEN * i + RECORD_LEN,
            ) == record_wire(records[i]),
    decreases records.len(),
{
    lemma_auto_spec_u32_to_from_le_bytes();
    lemma_auto_spec_u64_to_from_le_bytes();
    if records.len() > 0 {
        let front = records.drop_last();
        records_wire_layout(front);
        let whole = records_wire(records);
        assert forall|i: int| 0 <= i < records.len() implies #[trigger] whole.subrange(
            RECORD_LEN * i,
            RECORD_LEN * i + RECORD_LEN,
        ) == record_wire(records[i]) by {
            if i < front.len() {
                assert(whole.subrange(RECORD_LEN * i, RECORD_LEN * i + RECORD_LEN)
                    == records_wire(front).subrange(RECORD_LEN * i, RECORD_LEN * i + RECORD_LEN));
            }
        }
    }
}

/// Records that are written and read back are the same records, whatever follows
/// them in the payload.
pub proof fn snapshot_fields_round_trip(records: Seq<(u64, u32, u32, u32)>, rest: Seq<u8>)
    requires
        records.len() <= u64::MAX,
    ensures
        snapshot_fields_wire(records).len() == COUNT_LEN + RECORD_LEN * records.len(),
        snapshot_fields_parse(snapshot_fields_wire(records) + rest) == Some(records),
{
    lemma_auto_spec_u32_to_from_le_bytes();
    lemma_auto_spec_u64_to_from_le_bytes();
    records_wire_layout(records);
    let count = spec_u64_to_le_bytes(records.len() as u64);
    let body = records_wire(records);
    let bytes = snapshot_fields_wire(records) + rest;
    assert(bytes.subrange(0, 8) == count);
    let read = Seq::new(records.len(), |index: int| record_at(bytes, index));
    assert forall|i: int| 0 <= i < records.len() implies read[i] == records[i] by {
        let at = COUNT_LEN + RECORD_LEN * i;
        let record = body.subrange(RECORD_LEN * i, RECORD_LEN * i + RECORD_LEN);
        assert(bytes.subrange(at, at + 8) == record.subrange(0, 8));
        assert(bytes.subrange(at + 8, at + 12) == record.subrange(8, 12));
        assert(bytes.subrange(at + 12, at + 16) == record.subrange(12, 16));
        assert(bytes.subrange(at + 16, at + 20) == record.subrange(16, 20));
        assert(record.subrange(0, 8) == spec_u64_to_le_bytes(records[i].0));
        assert(record.subrange(8, 12) == spec_u32_to_le_bytes(records[i].1));
        assert(record.subrange(12, 16) == spec_u32_to_le_bytes(records[i].2));
        assert(record.subrange(16, 20) == spec_u32_to_le_bytes(records[i].3));
    }
}

/// A snapshot that is written and read back has the same entries in the same
/// order, and so stands for the same mapping.
pub proof fn snapshot_round_trip(entries: Seq<SnapshotEntry>)
    requires
        entries.len() <= u64::MAX,
    ensures
        parse_snapshot(snapshot_wire(entries)) == Some(entries),
        parse_world(snapshot_wire(entries)) == Some(entries_map(entries)),
{
    let records = entries.map_values(|e: SnapshotEntry| entry_fields(e));
    snapshot_fields_round_trip(records, Seq::empty());
}

/// Two snapshots that stand for the same mapping are read back as the same
/// mapping, in whatever order their entries were recorded.
pub proof fn snapshot_round_trip_unordered(first: Seq<SnapshotEntry>, second: Seq<SnapshotEntry>)
    requires
        first.len() <= u64::MAX,
        second.len() <= u64::MAX,
        entries_map(first) == entries_map(second),
    ensures
        parse_world(snapshot_wire(first)) == parse_world(snapshot_wire(second)),
        parse_world(snapshot_wire(first)) == Some(entries_map(first)),
{
    snapshot_round_trip(first);
    snapshot_round_trip(second);
}

} // verus!
