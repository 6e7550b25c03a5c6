use replication::client::ClientReplicator;
use replication::config::{
    addr, channels, client_addr, client_identity, client_settings, input_channel, server_settings,
    snapshot_channel, Authentication, ChannelSettings, Delivery, Endpoint, CHANNEL_MEMORY,
    INPUT_CHANNEL, MAX_CLIENTS, PORT, PROTOCOL_ID, RESEND_MILLIS, SNAPSHOT_CHANNEL,
};
use replication::lobby::Lobby;
use replication::replicator::Replicator;
use replication::role::Role;
use replication::server::ServerReplicator;

#[test]
fn role_follows_the_flag() {
    assert_eq!(Role::from_flag(true), Role::Server);
    assert_eq!(Role::from_flag(false), Role::Client);
    assert!(Role::Server.is_server());
    assert!(!Role::Client.is_server());
}

#[test]
fn replicator_is_that_of_the_role() {
    match Replicator::new(Role::from_flag(true)) {
        Replicator::Server(server) => assert_eq!(server.entity_count(), 0),
        Replicator::Client(_) => panic!("a server was asked for"),
    }
    match Replicator::new(Role::from_flag(false)) {
        Replicator::Client(client) => assert_eq!(client.entity_count(), 0),
        Replicator::Server(_) => panic!("a client was asked for"),
    }
    assert_eq!(Replicator::new(Role::Server).role(), Role::Server);
    assert_eq!(Replicator::new(Role::Client).role(), Role::Client);
    assert_eq!(Replicator::Server(ServerReplicator::new()).role(), Role::Server);
    assert_eq!(Replicator::Client(ClientReplicator::new()).role(), Role::Client);
}

#[test]
fn shared_constants() {
    assert_eq!(PORT, 5000);
    assert_eq!(PROTOCOL_ID, 7);
    assert_eq!(MAX_CLIENTS, 64);
    assert_eq!(INPUT_CHANNEL, 0);
    assert_ne!(SNAPSHOT_CHANNEL, INPUT_CHANNEL);
    assert_eq!(CHANNEL_MEMORY, 1 << 20);
    assert_eq!(RESEND_MILLIS, 200);
}

#[test]
fn there_are_two_channels() {
    let reliable = ChannelSettings {
        channel_id: 0,
        max_memory_usage_bytes: 1 << 20,
        delivery: Delivery::ReliableOrdered { resend_millis: 200 },
    };
    let unreliable = ChannelSettings {
        channel_id: 1,
        max_memory_usage_bytes: 1 << 20,
        delivery: Delivery::Unreliable,
    };
    assert_eq!(input_channel(), reliable);
    assert_eq!(snapshot_channel(), unreliable);
    let settings = channels();
    assert_eq!(settings.server_channels, vec![reliable, unreliable]);
    assert_eq!(settings.client_channels, vec![reliable, unreliable]);
}

#[test]
fn addresses_are_on_the_loopback() {
    assert_eq!(addr(), Endpoint { a: 127, b: 0, c: 0, d: 1, port: 5000 });
    assert_eq!(client_addr(), Endpoint { a: 127, b: 0, c: 0, d: 1, port: 0 });
}

#[test]
fn server_settings_are_fixed() {
    let settings = server_settings();
    assert_eq!(settings.max_clients, 64);
    assert_eq!(settings.protocol_id, 7);
    assert_eq!(settings.public_address, addr());
    assert_eq!(settings.authentication, Authentication::Unsecure);
}

#[test]
fn client_identity_is_the_low_half_of_the_time() {
    assert_eq!(client_identity(0), 0);
    assert_eq!(client_identity(1_700_000_000_123), 1_700_000_000_123);
    assert_eq!(client_identity(u64::MAX as u128), u64::MAX);
    assert_eq!(client_identity(u64::MAX as u128 + 1), 0);
    assert_eq!(client_identity((5u128 << 64) + 42), 42);
    assert_eq!(client_identity(u128::MAX), u128::MAX as u64);
    let settings = client_settings(1_700_000_000_123);
    assert_eq!(settings.client_id, 1_700_000_000_123);
    assert_eq!(settings.protocol_id, 7);
    assert_eq!(settings.server_address, addr());
    assert_eq!(settings.local_address, client_addr());
    assert_eq!(settings.authentication, Authentication::Unsecure);
}

#[test]
fn lobby_keeps_one_entity_for_each_peer() {
    let mut lobby = Lobby::new();
    assert!(lobby.is_empty());
    assert_eq!(lobby.insert(4, 0), None);
    assert_eq!(lobby.insert(6, 1), None);
    assert_eq!(lobby.insert(4, 2), Some(0));
    assert_eq!(lobby.len(), 2);
    assert!(!lobby.is_empty());
    assert_eq!(lobby.get(4), Some(2));
    assert_eq!(lobby.get(6), Some(1));
    assert_eq!(lobby.get(5), None);
    assert!(lobby.contains(6));
    assert!(!lobby.contains(5));
}
