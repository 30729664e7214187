//! Everything one run needs besides the data: the network endpoint and the
//! process settings, bundled for the orchestration layer.

use vstd::prelude::*;
use crate::network_config::NetworkConfig;
use crate::operation_config::OperationConfig;

verus! {

/// The bundle of network and process settings for one run.
pub struct ExecutionConfig {
    pub(crate) network_config: NetworkConfig,
    pub(crate) operation_config: OperationConfig,
}

impl ExecutionConfig {
    /// The bundled network endpoint.
    pub closed spec fn network_config_spec(&self) -> NetworkConfig {
        self.network_config
    }

    /// The bundled process settings.
    pub closed spec fn operation_config_spec(&self) -> OperationConfig {
        self.operation_config
    }

    /// Bundles the two configurations exactly as given.
    pub fn new(network_config: NetworkConfig, operation_config: OperationConfig) -> (r:
        ExecutionConfig)
        ensures
            r.network_config_spec() == network_config,
            r.operation_config_spec() == operation_config,
    {
        ExecutionConfig { network_config, operation_config }
    }
}

} // verus!
