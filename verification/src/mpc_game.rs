//! The orchestration handle for one run: the execution settings and the
//! column selection, held together for the engine layer that drives the
//! actual secure computation. Playing and revealing belong to that outside
//! layer; the handle itself only keeps the configuration.

use vstd::prelude::*;
use crate::column_metadata::ColumnMetadata;
use crate::execution_config::ExecutionConfig;
use crate::mpc_view::MPCView;

verus! {

/// One run's configuration, ready for the engine layer.
pub struct MPCGame<T: ColumnMetadata> {
    pub(crate) execution_config: ExecutionConfig,
    pub(crate) view: MPCView<T>,
}

impl<T: ColumnMetadata> MPCGame<T> {
    /// The run's execution settings.
    pub closed spec fn execution_config_spec(&self) -> ExecutionConfig {
        self.execution_config
    }

    /// The run's column selection.
    pub closed spec fn view_spec(&self) -> MPCView<T> {
        self.view
    }

    /// Pairs the execution settings with the column selection.
    pub fn new(execution_config: ExecutionConfig, view: MPCView<T>) -> (r: MPCGame<T>)
        ensures
            r.execution_config_spec() == execution_config,
            r.view_spec() == view,
    {
        MPCGame { execution_config, view }
    }

    /// Runs the game. Driving the secure-computation protocol is the
    /// engine layer's work, outside this library; the handle itself changes
    /// nothing.
    pub fn play(&mut self)
        ensures
            *final(self) == *old(self),
    {
    }

    /// Reveals the results. Revealing secret shares is the engine layer's
    /// work, outside this library; the handle itself changes nothing.
    pub fn reveal_results(&mut self)
        ensures
            *final(self) == *old(self),
    {
    }
}

} // verus!
