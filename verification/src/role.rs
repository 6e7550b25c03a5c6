//! The one decision taken at startup: whether this process serves or connects.

use vstd::prelude::*;

verus! {

/// Which side of the protocol a process runs. Chosen once, never changed.
#[derive(Clone, Copy, Debug, PartialEq, Eq, Structural)]
pub enum Role {
    Server,
    Client,
}

impl Role {
    /// The role that the startup flag asks for.
    pub fn from_flag(server: bool) -> (role: Role)
        ensures
            role == (if server { Role::Server } else { Role::Client }),
    {
        if server {
            Role::Server
        } else {
            Role::Client
        }
    }

    /// Whether this is the serving side.
    pub fn is_server(self) -> (server: bool)
        ensures
            server == (self == Role::Server),
            Role::from_flag_value(server) == self,
    {
        match self {
            Role::Server => true,
            Role::Client => false,
        }
    }

    /// `from_flag` as a function of the flag.
    pub open spec fn from_flag_value(server: bool) -> Role {
        if server {
            Role::Server
        } else {
            Role::Client
        }
    }
}

} // verus!
