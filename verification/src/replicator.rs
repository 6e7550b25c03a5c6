//! The replicator of a process: the server's or a client's, as its role says.

use crate::client::ClientReplicator;
use crate::client::ClientState;
use crate::role::Role;
use crate::server::ServerReplicator;
use crate::server::ServerState;
use vstd::prelude::*;

verus! {

/// What a process keeps of the world, according to its role.
pub enum Replicator {
    Server(ServerReplicator),
    Client(ClientReplicator),
}

impl Replicator {
    /// The replicator of a process that starts in the given role: the one of
    /// that role, knowing nobody yet.
    pub fn new(role: Role) -> (replicator: Replicator)
        ensures
            replicator.role_value() == role,
            match replicator {
                Replicator::Server(server) => server@ == ServerState::empty() && server@.wf(),
                Replicator::Client(client) => client@ == ClientState::empty() && client@.wf(),
            },
    {
        match role {
            Role::Server => Replicator::Server(ServerReplicator::new()),
            Role::Client => Replicator::Client(ClientReplicator::new()),
        }
    }

    /// The role of the process that owns this replicator.
    pub open spec fn role_value(&self) -> Role {
        match self {
            Replicator::Server(_) => Role::Server,
            Replicator::Client(_) => Role::Client,
        }
    }

    /// The role of the process that owns this replicator.
    pub fn role(&self) -> (role: Role)
        ensures
            role == self.role_value(),
    {
        match self {
            Replicator::Server(_) => Role::Server,
            Replicator::Client(_) => Role::Client,
        }
    }
}

} // verus!
