//! What both sides agree on before they talk: the port, the protocol
//! identifier and the two channels.

use crate::message::ClientId;
use vstd::prelude::*;

verus! {

/// The UDP port on which the server listens.
pub const PORT: u16 = 5000;

/// The identifier that both sides must present; the transport refuses a peer
/// that presents another.
pub const PROTOCOL_ID: u64 = 7;

/// The number of clients that the server admits.
pub const MAX_CLIENTS: usize = 64;

/// The channel that carries input commands from a client to the server.
pub const INPUT_CHANNEL: u8 = 0;

/// The channel that carries snapshots from the server to its clients.
pub const SNAPSHOT_CHANNEL: u8 = 1;

/// The number of bytes that a channel may hold: one mebibyte.
pub const CHANNEL_MEMORY: usize = 1048576;

/// The time in milliseconds after which an unacknowledged message is sent again.
pub const RESEND_MILLIS: u64 = 200;

/// What a channel promises of the messages it carries.
#[derive(Clone, Copy, Debug, PartialEq, Eq, Structural)]
pub enum Delivery {
    /// Messages may be lost, repeated or arrive out of order.
    Unreliable,
    /// Every message arrives once, in the order of sending; a message that is
    /// not acknowledged is sent again after the given time.
    ReliableOrdered { resend_millis: u64 },
}

/// One channel of a connection.
#[derive(Clone, Copy, Debug, PartialEq, Eq, Structural)]
pub struct ChannelSettings {
    pub channel_id: u8,
    pub max_memory_usage_bytes: usize,
    pub delivery: Delivery,
}

/// The channels of a connection, for each direction in the order of priority.
#[derive(Clone, Debug)]
pub struct ConnectionSettings {
    /// The channels on which the server sends.
    pub server_channels: Vec<ChannelSettings>,
    /// The channels on which a client sends.
    pub client_channels: Vec<ChannelSettings>,
}

/// An IPv4 address and a port.
#[derive(Clone, Copy, Debug, PartialEq, Eq, Structural)]
pub struct Endpoint {
    pub a: u8,
    pub b: u8,
    pub c: u8,
    pub d: u8,
    pub port: u16,
}

/// How a peer proves who it is.
#[derive(Clone, Copy, Debug, PartialEq, Eq, Structural)]
pub enum Authentication {
    /// Not at all: a client states its own identity and is believed. Fit for a
    /// trusted network only.
    Unsecure,
}

/// What the server's transport is made with.
#[derive(Clone, Copy, Debug, PartialEq, Eq, Structural)]
pub struct ServerSettings {
    pub max_clients: usize,
    pub protocol_id: u64,
    pub public_address: Endpoint,
    pub authentication: Authentication,
}

/// What a client's transport is made with.
#[derive(Clone, Copy, Debug, PartialEq, Eq, Structural)]
pub struct ClientSettings {
    pub client_id: ClientId,
    pub protocol_id: u64,
    pub server_address: Endpoint,
    pub local_address: Endpoint,
    pub authentication: Authentication,
}

/// The channel for input commands: reliable and ordered.
pub open spec fn input_channel_settings() -> ChannelSettings {
    ChannelSettings {
        channel_id: INPUT_CHANNEL,
        max_memory_usage_bytes: CHANNEL_MEMORY,
        delivery: Delivery::ReliableOrdered { resend_millis: RESEND_MILLIS },
    }
}

/// The channel for snapshots: unreliable, since every snapshot replaces the
/// one before it.
pub open spec fn snapshot_channel_settings() -> ChannelSettings {
    ChannelSettings {
        channel_id: SNAPSHOT_CHANNEL,
        max_memory_usage_bytes: CHANNEL_MEMORY,
        delivery: Delivery::Unreliable,
    }
}

/// The address of the server: the loopback address and the fixed port.
pub open spec fn server_endpoint() -> Endpoint {
    Endpoint { a: 127, b: 0, c: 0, d: 1, port: PORT }
}

/// The address to which a client binds: the loopback address and a port that
/// the system chooses.
pub open spec fn client_endpoint() -> Endpoint {
    Endpoint { a: 127, b: 0, c: 0, d: 1, port: 0 }
}

/// The identity that a client gives itself from the time of its start, in
/// milliseconds since the epoch: the low 64 bits of it.
pub open spec fn identity_at(now_millis: u128) -> ClientId {
    (now_millis % 0x1_0000_0000_0000_0000) as ClientId
}

/// The channel for input commands.
pub fn input_channel() -> (channel: ChannelSettings)
    ensures
        channel == input_channel_settings(),
{
    ChannelSettings {
        channel_id: INPUT_CHANNEL,
        max_memory_usage_bytes: CHANNEL_MEMORY,
        delivery: Delivery::ReliableOrdered { resend_millis: RESEND_MILLIS },
    }
}

/// The channel for snapshots.
pub fn snapshot_channel() -> (channel: ChannelSettings)
    ensures
        channel == snapshot_channel_settings(),
{
    ChannelSettings {
        channel_id: SNAPSHOT_CHANNEL,
        max_memory_usage_bytes: CHANNEL_MEMORY,
        delivery: Delivery::Unreliable,
    }
}

/// The channels of every connection: the same two in both directions, the
/// reliable one first.
pub fn channels() -> (settings: ConnectionSettings)
    ensures
        settings.server_channels@ == seq![input_channel_settings(), snapshot_channel_settings()],
        settings.client_channels@ == seq![input_channel_settings(), snapshot_channel_settings()],
{
    let mut server_channels: Vec<ChannelSettings> = Vec::new();
    server_channels.push(input_channel());
    server_channels.push(snapshot_channel());
    let mut client_channels: Vec<ChannelSettings> = Vec::new();
    client_channels.push(input_channel());
    client_channels.push(snapshot_channel());
    ConnectionSettings { server_channels, client_channels }
}

/// The address at which the server listens and which clients dial.
pub fn addr() -> (endpoint: Endpoint)
    ensures
        endpoint == server_endpoint(),
{
    Endpoint { a: 127, b: 0, c: 0, d: 1, port: PORT }
}

/// The address to which a client binds its socket.
pub fn client_addr() -> (endpoint: Endpoint)
    ensures
        endpoint == client_endpoint(),
{
    Endpoint { a: 127, b: 0, c: 0, d: 1, port: 0 }
}

/// The settings of the server's transport.
pub fn server_settings() -> (settings: ServerSettings)
    ensures
        settings == (ServerSettings {
            max_clients: MAX_CLIENTS,
            protocol_id: PROTOCOL_ID,
            public_address: server_endpoint(),
            authentication: Authentication::Unsecure,
        }),
{
    ServerSettings {
        max_clients: MAX_CLIENTS,
        protocol_id: PROTOCOL_ID,
        public_address: addr(),
        authentication: Authentication::Unsecure,
    }
}

/// The identity that a client started at the given time gives itself.
pub fn client_identity(now_millis: u128) -> (id: ClientId)
    ensures
        id == identity_at(now_millis),
{
    let low: u128 = now_millis % 0x1_0000_0000_0000_0000;
    low as ClientId
}

/// The settings of the transport of a client started at the given time.
pub fn client_settings(now_millis: u128) -> (settings: ClientSettings)
    ensures
        settings == (ClientSettings {
            client_id: identity_at(now_millis),
            protocol_id: PROTOCOL_ID,
            server_address: server_endpoint(),
            local_address: client_endpoint(),
            authentication: Authentication::Unsecure,
        }),
{
    ClientSettings {
        client_id: client_identity(now_millis),
        protocol_id: PROTOCOL_ID,
        server_address: addr(),
        local_address: client_addr(),
        authentication: Authentication::Unsecure,
    }
}

/// The two channels differ in their identifiers, so a payload is never taken
/// for one of the other kind.
pub proof fn channels_are_distinct()
    ensures
        input_channel_settings().channel_id != snapshot_channel_settings().channel_id,
        input_channel_settings().delivery is ReliableOrdered,
        snapshot_channel_settings().delivery is Unreliable,
{
}

} // verus!
