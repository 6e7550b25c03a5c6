//! Authoritative state replication for a small multiplayer world.
//!
//! A server accepts connections, takes each client's input, keeps one simulated
//! entity per client and broadcasts the complete world every tick. A client sends
//! its input every tick and shows whatever the server reported last.
//!
//! Every scalar that travels on the wire or lives in an entity is an IEEE 754
//! binary32 number held by its bit pattern in a `u32`, so that values pass through
//! the library bit for bit. The library does no arithmetic on them: moving an
//! entity by its velocity is the business of the simulation around it, which
//! commits the result.
//!
//! The library does no input or output either. Each side is a value with one
//! step per tick: the host hands it what the transport brought and sends what
//! the step gives back.
//!
//! A client has one entity for as long as the process runs. Two gaps are kept
//! as they are and stated where they show. A client that disconnects keeps its
//! lobby entry and its entity; when it connects again under the same identity,
//! that entity is put back in the spawn state. And peers are not
//! authenticated: a client states its own identity.

pub mod scalar;
pub mod role;
pub mod config;
pub mod message;
pub mod codec;
pub mod lobby;
pub mod entity;
pub mod server;
pub mod client;
pub mod replicator;
