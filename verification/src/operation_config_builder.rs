//! Builder-style construction of an [`OperationConfig`], starting from one
//! worker, informational verbosity, and debug behaviour off.

use vstd::prelude::*;
use crate::log_level::LogLevel;
use crate::operation_config::OperationConfig;

verus! {

/// Accumulates process settings before building an [`OperationConfig`].
pub struct OperationConfigBuilder {
    concurrency: u32,
    log_level: LogLevel,
    debug: bool,
}

impl OperationConfigBuilder {
    /// The concurrency set so far.
    pub closed spec fn concurrency_spec(&self) -> u32 {
        self.concurrency
    }

    /// The verbosity level set so far.
    pub closed spec fn log_level_spec(&self) -> LogLevel {
        self.log_level
    }

    /// The debug flag set so far.
    pub closed spec fn debug_spec(&self) -> bool {
        self.debug
    }

    /// The defaults: one worker, informational verbosity, debug off.
    pub fn new() -> (r: OperationConfigBuilder)
        ensures
            r.concurrency_spec() == 1u32,
            r.log_level_spec() == LogLevel::Info,
            r.debug_spec() == false,
    {
        OperationConfigBuilder { concurrency: 1, log_level: LogLevel::Info, debug: false }
    }

    /// Sets the worker concurrency.
    pub fn with_concurrency(&mut self, concurrency: u32) -> (r: &Self)
        ensures
            final(self).concurrency_spec() == concurrency,
            final(self).log_level_spec() == old(self).log_level_spec(),
            final(self).debug_spec() == old(self).debug_spec(),
    {
        self.concurrency = concurrency;
        self
    }

    /// Sets the verbosity level.
    pub fn with_log_level(&mut self, log_level: LogLevel) -> (r: &Self)
        ensures
            final(self).concurrency_spec() == old(self).concurrency_spec(),
            final(self).log_level_spec() == log_level,
            final(self).debug_spec() == old(self).debug_spec(),
    {
        self.log_level = log_level;
        self
    }

    /// Sets the debug flag.
    pub fn with_debug(&mut self, debug: bool) -> (r: &Self)
        ensures
            final(self).concurrency_spec() == old(self).concurrency_spec(),
            final(self).log_level_spec() == old(self).log_level_spec(),
            final(self).debug_spec() == debug,
    {
        self.debug = debug;
        self
    }

    /// Builds the configuration from the settings as they stand.
    pub fn build(&self) -> (r: OperationConfig)
        ensures
            r.concurrency_spec() == self.concurrency_spec(),
            r.log_level_spec() == self.log_level_spec(),
            r.debug_spec() == self.debug_spec(),
    {
        OperationConfig::new(self.concurrency, self.log_level, self.debug)
    }
}

} // verus!
