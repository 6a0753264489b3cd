//! Which filter decides what is logged.
use vstd::prelude::*;

verus! {

/// Where the log filter comes from.
#[derive(Debug, Clone, Copy, PartialEq, Eq, Structural)]
pub enum LogFilterSource {
    /// The filter set in the environment (`RUST_LOG`).
    Environment,
    /// The log level asked for on the command line.
    Requested,
    /// The `info` level.
    Info,
}

/// The filter text asked for: the given level, or `info` when none is given.
pub fn requested_log_level(level: Option<String>) -> (r: String)
    ensures
        match level {
            Some(l) => r@ == l@,
            None => r@ == "info"@,
        },
{
    match level {
        Some(l) => l,
        None => "info".to_owned(),
    }
}

/// The filter that is used: the one set in the environment when it is there
/// and parses, else the level asked for when it parses, else `info`.
pub fn choose_log_filter(environment_parses: bool, requested_parses: bool) -> (r: LogFilterSource)
    ensures
        r == (if environment_parses {
            LogFilterSource::Environment
        } else if requested_parses {
            LogFilterSource::Requested
        } else {
            LogFilterSource::Info
        }),
{
    if environment_parses {
        LogFilterSource::Environment
    } else if requested_parses {
        LogFilterSource::Requested
    } else {
        LogFilterSource::Info
    }
}

} // verus!
