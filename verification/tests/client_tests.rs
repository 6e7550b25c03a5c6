use replication::client::{input_payload, ClientReplicator, Remote};
use replication::codec::{decode_input, encode_input, encode_snapshot};
use replication::entity::EntityState;
use replication::message::{InputCommand, Snapshot};
use replication::scalar::{Vector2, Vector3};
use replication::server::{ClientBatch, ConnectionEvent, ServerReplicator};

fn at(x: f32, y: f32, z: f32) -> Vector3 {
    Vector3 { x: x.to_bits(), y: y.to_bits(), z: z.to_bits() }
}

fn go(x: f32, y: f32, jump: bool) -> InputCommand {
    InputCommand { direction: Vector2 { x: x.to_bits(), y: y.to_bits() }, jump }
}

fn table(client: &ClientReplicator) -> Vec<Remote> {
    (0..client.entity_count()).map(|entity| client.remote(entity).unwrap()).collect()
}

fn lobby(client: &ClientReplicator, ids: &[u64]) -> Vec<Option<usize>> {
    ids.iter().map(|&id| client.entity_of(id)).collect()
}

#[test]
fn new_client_shows_nobody() {
    let client = ClientReplicator::new();
    assert_eq!(client.entity_count(), 0);
    assert!(client.lobby().is_empty());
    assert_eq!(client.position_of(1), None);
    assert_eq!(client.remote(0), None);
}

#[test]
fn first_snapshot_makes_placeholders() {
    let mut client = ClientReplicator::new();
    let mut snapshot = Snapshot::new();
    snapshot.record(11, at(1.0, 0.5, 0.0));
    snapshot.record(22, at(0.0, 0.5, 2.0));
    client.apply_snapshot(&snapshot);
    assert_eq!(client.entity_count(), 2);
    assert_eq!(client.lobby().len(), 2);
    assert_eq!(client.entity_of(11), Some(0));
    assert_eq!(client.entity_of(22), Some(1));
    assert_eq!(client.remote(0), Some(Remote { owner: 11, position: at(1.0, 0.5, 0.0) }));
    assert_eq!(client.remote(1), Some(Remote { owner: 22, position: at(0.0, 0.5, 2.0) }));
    assert_eq!(client.position_of(22), Some(at(0.0, 0.5, 2.0)));
    assert_eq!(client.position_of(33), None);
}

#[test]
fn later_snapshot_overwrites_positions() {
    let mut client = ClientReplicator::new();
    assert_eq!(client.place(1, at(0.0, 0.5, 0.0)), (0, true));
    assert_eq!(client.place(2, at(0.0, 0.5, 0.0)), (1, true));
    assert_eq!(client.place(1, at(4.0, 0.5, 0.0)), (0, false));
    let mut snapshot = Snapshot::new();
    snapshot.record(2, at(7.0, 8.0, 9.0));
    snapshot.record(3, at(1.0, 1.0, 1.0));
    client.apply_snapshot(&snapshot);
    assert_eq!(client.entity_count(), 3);
    assert_eq!(client.position_of(1), Some(at(4.0, 0.5, 0.0)));
    assert_eq!(client.position_of(2), Some(at(7.0, 8.0, 9.0)));
    assert_eq!(client.position_of(3), Some(at(1.0, 1.0, 1.0)));
    assert_eq!(lobby(&client, &[1, 2, 3]), vec![Some(0), Some(1), Some(2)]);
}

#[test]
fn same_snapshot_twice_changes_nothing() {
    let mut client = ClientReplicator::new();
    client.place(5, at(0.0, 0.0, 0.0));
    let mut snapshot = Snapshot::new();
    snapshot.record(9, at(1.0, 2.0, 3.0));
    snapshot.record(5, at(4.0, 5.0, 6.0));
    snapshot.record(9, at(7.0, 8.0, 9.0));
    let payload = encode_snapshot(&snapshot);
    assert!(client.receive(&payload));
    let once = table(&client);
    let ids = [5u64, 9, 1];
    let lobby_once = lobby(&client, &ids);
    assert!(client.receive(&payload));
    assert_eq!(table(&client), once);
    assert_eq!(lobby(&client, &ids), lobby_once);
    client.apply_snapshot(&snapshot);
    assert_eq!(table(&client), once);
    assert_eq!(client.position_of(9), Some(at(7.0, 8.0, 9.0)));
    assert_eq!(client.position_of(5), Some(at(4.0, 5.0, 6.0)));
    assert_eq!(client.entity_count(), 2);
}

#[test]
fn malformed_snapshot_changes_nothing() {
    let mut client = ClientReplicator::new();
    client.place(1, at(1.0, 0.5, 0.0));
    client.place(2, at(2.0, 0.5, 0.0));
    let before = table(&client);
    let payloads: Vec<Vec<u8>> = vec![
        vec![],
        vec![1, 2, 3],
        vec![1, 0, 0, 0, 0, 0, 0, 0, 9, 9],
        vec![0xff; 40],
        encode_input(&go(1.0, 0.0, true)),
    ];
    for payload in &payloads {
        assert!(!client.receive(payload));
        assert_eq!(table(&client), before);
        assert_eq!(lobby(&client, &[1, 2]), vec![Some(0), Some(1)]);
    }
    client.receive_all(&payloads);
    assert_eq!(table(&client), before);
    assert_eq!(client.step(true, &go(0.0, 0.0, false), &payloads).is_some(), true);
    assert_eq!(table(&client), before);
    assert_eq!(client.lobby().len(), 2);
}

#[test]
fn malformed_snapshot_does_not_stop_the_others() {
    let mut client = ClientReplicator::new();
    let mut first = Snapshot::new();
    first.record(1, at(1.0, 0.0, 0.0));
    let mut second = Snapshot::new();
    second.record(1, at(2.0, 0.0, 0.0));
    second.record(2, at(3.0, 0.0, 0.0));
    client.receive_all(&vec![encode_snapshot(&first), vec![7, 7, 7], encode_snapshot(&second)]);
    assert_eq!(client.position_of(1), Some(at(2.0, 0.0, 0.0)));
    assert_eq!(client.position_of(2), Some(at(3.0, 0.0, 0.0)));
    assert_eq!(client.entity_count(), 2);
}

#[test]
fn unconnected_client_sends_nothing() {
    let mut client = ClientReplicator::new();
    client.place(1, at(1.0, 0.5, 0.0));
    let before = table(&client);
    let mut snapshot = Snapshot::new();
    snapshot.record(2, at(1.0, 1.0, 1.0));
    let incoming = vec![encode_snapshot(&snapshot)];
    for _ in 0..100 {
        assert_eq!(client.step(false, &go(1.0, 0.0, true), &incoming), None);
        assert_eq!(client.step(false, &go(1.0, 0.0, true), &vec![]), None);
    }
    assert_eq!(table(&client), before);
    assert_eq!(input_payload(false, &go(1.0, 0.0, true)), None);
}

#[test]
fn connected_client_sends_its_input_every_tick() {
    let mut client = ClientReplicator::new();
    let input = go(1.0, -1.0, true);
    for _ in 0..3 {
        let payload = client.step(true, &input, &vec![]).unwrap();
        assert_eq!(payload, encode_input(&input));
        assert_eq!(decode_input(&payload), Some(input));
    }
    assert_eq!(input_payload(true, &input), Some(encode_input(&input)));
    assert_eq!(client.entity_count(), 0);
}

#[test]
fn client_follows_the_server() {
    let mut server = ServerReplicator::new();
    let mut client = ClientReplicator::new();
    let payload = server
        .step(&vec![ConnectionEvent::Connected(1), ConnectionEvent::Connected(2)], &vec![]);
    let sent = client.step(true, &go(1.0, 0.0, false), &vec![payload]).unwrap();
    assert_eq!(client.position_of(1), Some(at(0.0, 0.5, 0.0)));
    assert_eq!(client.position_of(2), Some(at(0.0, 0.5, 0.0)));
    let payload = server.step(&vec![], &vec![ClientBatch { id: 1, payloads: vec![sent] }]);
    let state = server.state_of(1).unwrap();
    assert_eq!(state.velocity, at(1.0, 0.0, 0.0));
    assert!(server.commit(
        server.entity_of(1).unwrap(),
        EntityState { position: at(0.25, 0.5, 0.0), velocity: state.velocity },
    ));
    let stale = payload;
    let fresh = server.broadcast_payload();
    client.receive_all(&vec![stale, fresh]);
    assert_eq!(client.position_of(1), Some(at(0.25, 0.5, 0.0)));
    assert_eq!(client.position_of(2), Some(at(0.0, 0.5, 0.0)));
    assert_eq!(client.entity_count(), 2);
}
