//! Builder-style construction of a [`NetworkConfig`], starting from the
//! publisher role on the local host's conventional port.

use vstd::prelude::*;
use crate::mpc_role::MPCRole;
use crate::network_config::NetworkConfig;

verus! {

/// Accumulates endpoint settings before building a [`NetworkConfig`].
pub struct NetworkConfigBuilder {
    role: MPCRole,
    host: String,
    port: u16,
}

impl NetworkConfigBuilder {
    /// The role set so far.
    pub closed spec fn role_spec(&self) -> MPCRole {
        self.role
    }

    /// The host set so far.
    pub closed spec fn host_spec(&self) -> Seq<char> {
        self.host@
    }

    /// The port set so far.
    pub closed spec fn port_spec(&self) -> u16 {
        self.port
    }

    /// The defaults: the publisher role on `localhost`, port 8080.
    pub fn new() -> (r: NetworkConfigBuilder)
        ensures
            r.role_spec() == MPCRole::Publisher,
            r.host_spec() == "localhost"@,
            r.port_spec() == 8080u16,
    {
        NetworkConfigBuilder {
            role: MPCRole::Publisher,
            host: String::from_str("localhost"),
            port: 8080,
        }
    }

    /// Sets the role.
    pub fn with_role(&mut self, role: MPCRole) -> (r: &Self)
        ensures
            final(self).role_spec() == role,
            final(self).host_spec() == old(self).host_spec(),
            final(self).port_spec() == old(self).port_spec(),
    {
        self.role = role;
        self
    }

    /// Sets the host name.
    pub fn with_host(&mut self, host: String) -> (r: &Self)
        ensures
            final(self).role_spec() == old(self).role_spec(),
            final(self).host_spec() == host@,
            final(self).port_spec() == old(self).port_spec(),
    {
        self.host = host;
        self
    }

    /// Sets the port.
    pub fn with_port(&mut self, port: u16) -> (r: &Self)
        ensures
            final(self).role_spec() == old(self).role_spec(),
            final(self).host_spec() == old(self).host_spec(),
            final(self).port_spec() == port,
    {
        self.port = port;
        self
    }

    /// Builds the endpoint from the settings as they stand.
    pub fn build(&self) -> (r: NetworkConfig)
        ensures
            r.role_spec() == self.role_spec(),
            r.host_spec() == self.host_spec(),
            r.port_spec() == self.port_spec(),
    {
        NetworkConfig::new(self.role, self.host.clone(), self.port)
    }
}

} // verus!
