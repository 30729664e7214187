//! Process-level settings for one run: how many concurrent workers the
//! engine may use, how verbose to be, and whether debug behaviour is on.

use vstd::prelude::*;
use crate::log_level::LogLevel;

verus! {

/// Plain process settings, fixed at construction.
pub struct OperationConfig {
    pub(crate) concurrency: u32,
    pub(crate) log_level: LogLevel,
    pub(crate) debug: bool,
}

impl OperationConfig {
    /// The configured worker concurrency.
    pub closed spec fn concurrency_spec(&self) -> u32 {
        self.concurrency
    }

    /// The configured verbosity level.
    pub closed spec fn log_level_spec(&self) -> LogLevel {
        self.log_level
    }

    /// Whether debug behaviour is on.
    pub closed spec fn debug_spec(&self) -> bool {
        self.debug
    }

    /// The configured worker concurrency.
    pub fn concurrency(&self) -> (r: u32)
        ensures
            r == self.concurrency_spec(),
    {
        self.concurrency
    }

    /// The configured verbosity level.
    pub fn log_level(&self) -> (r: LogLevel)
        ensures
            r == self.log_level_spec(),
    {
        self.log_level
    }

    /// Whether debug behaviour is on.
    pub fn debug(&self) -> (r: bool)
        ensures
            r == self.debug_spec(),
    {
        self.debug
    }

    /// Assembles the settings exactly as given.
    pub fn new(concurrency: u32, log_level: LogLevel, debug: bool) -> (r: OperationConfig)
        ensures
            r.concurrency_spec() == concurrency,
            r.log_level_spec() == log_level,
            r.debug_spec() == debug,
    {
        OperationConfig { concurrency, log_level, debug }
    }
}

} // verus!
