use replication::codec::{
    decode_input, decode_snapshot, encode_input, encode_snapshot, COUNT_LEN, INPUT_LEN, RECORD_LEN,
};
use replication::message::{InputCommand, Snapshot, SnapshotEntry};
use replication::scalar::{Vector2, Vector3, HALF, NEG_ONE, ONE, ZERO};
use std::collections::HashMap;

fn command(x: f32, y: f32, jump: bool) -> InputCommand {
    InputCommand { direction: Vector2 { x: x.to_bits(), y: y.to_bits() }, jump }
}

fn point(x: f32, y: f32, z: f32) -> Vector3 {
    Vector3 { x: x.to_bits(), y: y.to_bits(), z: z.to_bits() }
}

#[test]
fn input_has_nine_bytes_in_little_endian() {
    let bytes = encode_input(&command(1.0, 0.0, false));
    assert_eq!(bytes, vec![0x00, 0x00, 0x80, 0x3f, 0x00, 0x00, 0x00, 0x00, 0x00]);
    let bytes = encode_input(&command(-1.0, 0.5, true));
    assert_eq!(bytes, vec![0x00, 0x00, 0x80, 0xbf, 0x00, 0x00, 0x00, 0x3f, 0x01]);
    assert_eq!(bytes.len(), INPUT_LEN);
}

#[test]
fn input_bytes_are_those_of_floats() {
    for &(x, y, jump) in
        &[(1.0f32, 0.0f32, false), (-0.0, 3.25, true), (f32::MAX, f32::MIN_POSITIVE, true)]
    {
        let expected = bincode::serialize(&((x, y), jump)).unwrap();
        assert_eq!(encode_input(&command(x, y, jump)), expected);
    }
}

#[test]
fn input_round_trip_keeps_every_bit() {
    let patterns = [
        0u32,
        0x8000_0000,
        ONE,
        NEG_ONE,
        HALF,
        0x7f80_0000,
        0xff80_0000,
        0x7fc0_0001,
        0xffff_ffff,
        0x0000_0001,
        0x1234_5678,
    ];
    for &x in &patterns {
        for &y in &patterns {
            for &jump in &[false, true] {
                let cmd = InputCommand { direction: Vector2 { x, y }, jump };
                assert_eq!(decode_input(&encode_input(&cmd)), Some(cmd));
            }
        }
    }
}

#[test]
fn input_decodes_to_floats() {
    let bytes = bincode::serialize(&((0.25f32, -8.0f32), true)).unwrap();
    let cmd = decode_input(&bytes).unwrap();
    assert_eq!(f32::from_bits(cmd.direction.x), 0.25);
    assert_eq!(f32::from_bits(cmd.direction.y), -8.0);
    assert!(cmd.jump);
}

#[test]
fn short_input_is_refused() {
    assert_eq!(decode_input(&[]), None);
    assert_eq!(decode_input(&[0, 0, 128, 63, 0, 0, 0, 0]), None);
}

#[test]
fn input_with_a_bad_flag_is_refused() {
    assert_eq!(decode_input(&[0, 0, 128, 63, 0, 0, 0, 0, 2]), None);
    assert_eq!(decode_input(&[0, 0, 128, 63, 0, 0, 0, 0, 255]), None);
    assert_eq!(decode_input(&[0, 0, 128, 63, 0, 0, 0, 0, 1]), Some(command(1.0, 0.0, true)));
}

#[test]
fn bytes_after_an_input_are_ignored() {
    let mut bytes = encode_input(&command(1.0, -1.0, true));
    bytes.extend_from_slice(&[9, 9, 9]);
    assert_eq!(decode_input(&bytes), Some(command(1.0, -1.0, true)));
}

#[test]
fn empty_snapshot_is_a_count_of_zero() {
    let bytes = encode_snapshot(&Snapshot::new());
    assert_eq!(bytes, vec![0u8; 8]);
    assert_eq!(bytes.len(), COUNT_LEN);
    let back = decode_snapshot(&bytes).unwrap();
    assert!(back.is_empty());
    assert_eq!(back.len(), 0);
}

#[test]
fn snapshot_has_a_count_and_records_of_twenty_bytes() {
    let mut snapshot = Snapshot::new();
    snapshot.record(1, point(0.0, 0.5, 0.0));
    let bytes = encode_snapshot(&snapshot);
    let expected: Vec<u8> = vec![
        1, 0, 0, 0, 0, 0, 0, 0, // count
        1, 0, 0, 0, 0, 0, 0, 0, // identity
        0, 0, 0, 0, // x
        0, 0, 0, 0x3f, // y
        0, 0, 0, 0, // z
    ];
    assert_eq!(bytes, expected);
    snapshot.record(0x0102_0304_0506_0708, point(1.0, -1.0, 5.0));
    let bytes = encode_snapshot(&snapshot);
    assert_eq!(bytes.len(), COUNT_LEN + 2 * RECORD_LEN);
    assert_eq!(&bytes[..8], &[2, 0, 0, 0, 0, 0, 0, 0]);
    assert_eq!(&bytes[8..28], &expected[8..]);
    assert_eq!(
        &bytes[28..],
        &[8, 7, 6, 5, 4, 3, 2, 1, 0, 0, 0x80, 0x3f, 0, 0, 0x80, 0xbf, 0, 0, 0xa0, 0x40]
    );
}

#[test]
fn snapshot_bytes_are_those_of_a_map_of_floats() {
    let mut map: HashMap<u64, (f32, f32, f32)> = HashMap::new();
    map.insert(42, (1.5, -2.0, 0.125));
    let expected = bincode::serialize(&map).unwrap();
    let mut snapshot = Snapshot::new();
    snapshot.record(42, point(1.5, -2.0, 0.125));
    assert_eq!(encode_snapshot(&snapshot), expected);
}

#[test]
fn snapshot_reads_a_map_of_floats() {
    let mut map: HashMap<u64, (f32, f32, f32)> = HashMap::new();
    for id in 0..20u64 {
        map.insert(id * 7 + 1, (id as f32, -(id as f32) / 3.0, 0.5));
    }
    let bytes = bincode::serialize(&map).unwrap();
    let snapshot = decode_snapshot(&bytes).unwrap();
    assert_eq!(snapshot.len(), 20);
    for (id, (x, y, z)) in map {
        assert_eq!(snapshot.get(id), Some(point(x, y, z)));
    }
    assert_eq!(snapshot.get(0), None);
}

#[test]
fn snapshot_is_read_back_by_a_map_of_floats() {
    let mut snapshot = Snapshot::new();
    snapshot.record(3, point(1.0, 2.0, 3.0));
    snapshot.record(9, point(-4.0, 0.0, 0.5));
    let map: HashMap<u64, (f32, f32, f32)> =
        bincode::deserialize(&encode_snapshot(&snapshot)).unwrap();
    assert_eq!(map.len(), 2);
    assert_eq!(map[&3], (1.0, 2.0, 3.0));
    assert_eq!(map[&9], (-4.0, 0.0, 0.5));
}

#[test]
fn snapshot_round_trip_keeps_entries_and_order() {
    let entries = vec![
        SnapshotEntry { id: u64::MAX, position: Vector3 { x: 0xffff_ffff, y: 0x7fc0_0000, z: 1 } },
        SnapshotEntry { id: 0, position: Vector3 { x: ZERO, y: HALF, z: ZERO } },
        SnapshotEntry { id: 5, position: Vector3 { x: ONE, y: NEG_ONE, z: 0x8000_0000 } },
    ];
    let snapshot = Snapshot::from_entries(entries.clone());
    let back = decode_snapshot(&encode_snapshot(&snapshot)).unwrap();
    assert_eq!(back.len(), 3);
    for (i, entry) in entries.iter().enumerate() {
        assert_eq!(back.entry(i), Some(*entry));
    }
    assert_eq!(back.entry(3), None);
}

#[test]
fn snapshot_round_trip_does_not_depend_on_order() {
    let a = SnapshotEntry { id: 1, position: point(1.0, 1.0, 1.0) };
    let b = SnapshotEntry { id: 2, position: point(2.0, 2.0, 2.0) };
    let c = SnapshotEntry { id: 3, position: point(3.0, 3.0, 3.0) };
    let first = decode_snapshot(&encode_snapshot(&Snapshot::from_entries(vec![a, b, c]))).unwrap();
    let second = decode_snapshot(&encode_snapshot(&Snapshot::from_entries(vec![c, a, b]))).unwrap();
    for id in 0..5u64 {
        assert_eq!(first.get(id), second.get(id));
    }
    assert_eq!(first.get(2), Some(b.position));
}

#[test]
fn later_entry_supersedes_earlier_one() {
    let mut snapshot = Snapshot::new();
    snapshot.record(4, point(1.0, 0.0, 0.0));
    snapshot.record(5, point(0.0, 1.0, 0.0));
    snapshot.record(4, point(0.0, 0.0, 1.0));
    assert_eq!(snapshot.len(), 3);
    assert_eq!(snapshot.get(4), Some(point(0.0, 0.0, 1.0)));
    assert_eq!(snapshot.get(5), Some(point(0.0, 1.0, 0.0)));
    let back = decode_snapshot(&encode_snapshot(&snapshot)).unwrap();
    assert_eq!(back.get(4), Some(point(0.0, 0.0, 1.0)));
    let map: HashMap<u64, (f32, f32, f32)> =
        bincode::deserialize(&encode_snapshot(&snapshot)).unwrap();
    assert_eq!(map[&4], (0.0, 0.0, 1.0));
}

#[test]
fn short_snapshot_is_refused() {
    assert!(decode_snapshot(&[]).is_none());
    assert!(decode_snapshot(&[0, 0, 0, 0, 0, 0, 0]).is_none());
    let mut snapshot = Snapshot::new();
    snapshot.record(1, point(0.0, 0.5, 0.0));
    let bytes = encode_snapshot(&snapshot);
    for cut in 0..bytes.len() {
        assert!(decode_snapshot(&bytes[..cut]).is_none());
    }
    assert!(decode_snapshot(&bytes).is_some());
}

#[test]
fn snapshot_that_announces_too_much_is_refused() {
    let mut bytes = vec![2u8, 0, 0, 0, 0, 0, 0, 0];
    bytes.extend_from_slice(&[0u8; 20]);
    assert!(decode_snapshot(&bytes).is_none());
    bytes.extend_from_slice(&[0u8; 19]);
    assert!(decode_snapshot(&bytes).is_none());
    bytes.push(0);
    assert_eq!(decode_snapshot(&bytes).unwrap().len(), 2);
    let huge = vec![0xffu8; 64];
    assert!(decode_snapshot(&huge).is_none());
}

#[test]
fn bytes_after_a_snapshot_are_ignored() {
    let mut snapshot = Snapshot::new();
    snapshot.record(8, point(1.0, 2.0, 3.0));
    let mut bytes = encode_snapshot(&snapshot);
    bytes.extend_from_slice(&[1, 2, 3, 4, 5]);
    let back = decode_snapshot(&bytes).unwrap();
    assert_eq!(back.len(), 1);
    assert_eq!(back.get(8), Some(point(1.0, 2.0, 3.0)));
}

#[test]
fn an_input_is_no_snapshot() {
    let bytes = encode_input(&command(1.0, 0.0, true));
    assert!(decode_snapshot(&bytes).is_none());
}
