//! Builder-style construction of an [`MPCConfig`], starting from the
//! publisher role, the conventional base port, and one worker.

use vstd::prelude::*;
use crate::mpc_config::MPCConfig;
use crate::mpc_role::MPCRole;

verus! {

/// Accumulates session settings before building an [`MPCConfig`].
pub struct MPCConfigBuilder {
    role: MPCRole,
    base_port: u16,
    concurrency: u32,
}

impl MPCConfigBuilder {
    /// The role set so far.
    pub closed spec fn role_spec(&self) -> MPCRole {
        self.role
    }

    /// The base port set so far.
    pub closed spec fn base_port_spec(&self) -> u16 {
        self.base_port
    }

    /// The concurrency set so far.
    pub closed spec fn concurrency_spec(&self) -> u32 {
        self.concurrency
    }

    /// The defaults: the publisher role, base port 8080, one worker.
    pub fn new() -> (r: MPCConfigBuilder)
        ensures
            r.role_spec() == MPCRole::Publisher,
            r.base_port_spec() == 8080u16,
            r.concurrency_spec() == 1u32,
    {
        MPCConfigBuilder { role: MPCRole::Publisher, base_port: 8080, concurrency: 1 }
    }

    /// Sets the role.
    pub fn with_role(&mut self, role: MPCRole) -> (r: &Self)
        ensures
            final(self).role_spec() == role,
            final(self).base_port_spec() == old(self).base_port_spec(),
            final(self).concurrency_spec() == old(self).concurrency_spec(),
    {
        self.role = role;
        self
    }

    /// Sets the base port.
    pub fn with_base_port(&mut self, base_port: u16) -> (r: &Self)
        ensures
            final(self).role_spec() == old(self).role_spec(),
            final(self).base_port_spec() == base_port,
            final(self).concurrency_spec() == old(self).concurrency_spec(),
    {
        self.base_port = base_port;
        self
    }

    /// Sets the concurrency.
    pub fn with_concurrency(&mut self, concurrency: u32) -> (r: &Self)
        ensures
            final(self).role_spec() == old(self).role_spec(),
            final(self).base_port_spec() == old(self).base_port_spec(),
            final(self).concurrency_spec() == concurrency,
    {
        self.concurrency = concurrency;
        self
    }

    /// Builds the configuration from the settings as they stand.
    pub fn build(&self) -> (r: MPCConfig)
        ensures
            r.role_spec() == self.role_spec(),
            r.base_port_spec() == self.base_port_spec(),
            r.concurrency_spec() == self.concurrency_spec(),
    {
        MPCConfig::new(self.role, self.base_port, self.concurrency)
    }
}

} // verus!
