//! The network endpoint one party listens on or connects to: its role in
//! the protocol, a host name, and a port. Plain data passed through to the
//! engine layer.

use vstd::prelude::*;
use crate::mpc_role::MPCRole;

verus! {

/// One party's network endpoint.
pub struct NetworkConfig {
    pub(crate) role: MPCRole,
    pub(crate) host: String,
    pub(crate) port: u16,
}

impl NetworkConfig {
    /// The configured role.
    pub closed spec fn role_spec(&self) -> MPCRole {
        self.role
    }

    /// The configured host name.
    pub closed spec fn host_spec(&self) -> Seq<char> {
        self.host@
    }

    /// The configured port.
    pub closed spec fn port_spec(&self) -> u16 {
        self.port
    }

    /// The configured role.
    pub fn role(&self) -> (r: MPCRole)
        ensures
            r == self.role_spec(),
    {
        self.role
    }

    /// The configured host name.
    pub fn host(&self) -> (r: &str)
        ensures
            r@ == self.host_spec(),
    {
        self.host.as_str()
    }

    /// The configured port.
    pub fn port(&self) -> (r: u16)
        ensures
            r == self.port_spec(),
    {
        self.port
    }

    /// Assembles the endpoint exactly as given.
    pub fn new(role: MPCRole, host: String, port: u16) -> (r: NetworkConfig)
        ensures
            r.role_spec() == role,
            r.host_spec() == host@,
            r.port_spec() == port,
    {
        NetworkConfig { role, host, port }
    }
}

} // verus!
