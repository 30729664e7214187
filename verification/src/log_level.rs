//! The verbosity level carried by the process configuration. The level is
//! plain data here; the surrounding application maps it onto whatever
//! logging facility it uses.

use vstd::prelude::*;

verus! {

/// How verbose the run should be, from most to least severe.
#[derive(Clone, Copy, Debug, PartialEq, Eq, Structural)]
pub enum LogLevel {
    Error,
    Warn,
    Info,
    Debug,
    Trace,
}

} // verus!
