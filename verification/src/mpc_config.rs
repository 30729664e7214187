//! The secure-computation engine's session settings: the party's role, the
//! base port the protocol channels start from, and the worker concurrency.

use vstd::prelude::*;
use crate::mpc_role::MPCRole;

verus! {

/// Session settings handed to the secure-computation engine.
pub struct MPCConfig {
    pub(crate) role: MPCRole,
    pub(crate) base_port: u16,
    pub(crate) concurrency: u32,
}

impl MPCConfig {
    /// The configured role.
    pub closed spec fn role_spec(&self) -> MPCRole {
        self.role
    }

    /// The configured base port.
    pub closed spec fn base_port_spec(&self) -> u16 {
        self.base_port
    }

    /// The configured concurrency.
    pub closed spec fn concurrency_spec(&self) -> u32 {
        self.concurrency
    }

    /// The configured role.
    pub fn role(&self) -> (r: MPCRole)
        ensures
            r == self.role_spec(),
    {
        self.role
    }

    /// The configured base port.
    pub fn base_port(&self) -> (r: u16)
        ensures
            r == self.base_port_spec(),
    {
        self.base_port
    }

    /// The configured concurrency.
    pub fn concurrency(&self) -> (r: u32)
        ensures
            r == self.concurrency_spec(),
    {
        self.concurrency
    }

    /// Assembles the settings exactly as given.
    pub fn new(role: MPCRole, base_port: u16, concurrency: u32) -> (r: MPCConfig)
        ensures
            r.role_spec() == role,
            r.base_port_spec() == base_port,
            r.concurrency_spec() == concurrency,
    {
        MPCConfig { role, base_port, concurrency }
    }
}

} // verus!
