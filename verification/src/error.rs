//! Error taxonomy of the engine: failures scoped to one task (a source that
//! produced nothing usable, a credential that is not set) and configuration
//! failures raised before any task is scheduled.

use vstd::prelude::*;

verus! {

/// Every failure the engine can report.  A `SourceError` or `UnsetKeys` is
/// recoverable and scoped to a single task; a `ConfigError` is fatal and can
/// only arise before any task runs.
#[derive(Debug, Clone)]
pub enum SubError {
    /// The named source returned no usable data (nothing parsed, an HTTP
    /// error, an empty result set, or a timeout).
    SourceError(String),
    /// The named credentials were looked up at invocation time and were not
    /// set; only the credentialed task that needed them fails.
    UnsetKeys(Vec<String>),
    /// The run configuration itself is invalid; no task was scheduled.
    ConfigError(String),
}

impl SubError {
    /// True exactly when the error is recoverable: scoped to one task and
    /// never fatal to the run.
    pub fn is_recoverable(&self) -> (r: bool)
        ensures
            r == !(self is ConfigError),
    {
        match self {
            SubError::SourceError(_) => true,
            SubError::UnsetKeys(_) => true,
            SubError::ConfigError(_) => false,
        }
    }
}

} // verus!
