use vstd::prelude::*;

verus! {

/// Severity threshold for log output, least verbose first.
#[derive(Clone, Copy, Debug, PartialEq, Eq, Structural)]
pub enum LogLevel {
    Error,
    Warn,
    Info,
    Debug,
    Trace,
}

/// Capability handle proving that logging has been initialized.
/// It is returned by the process's logger setup and passed to whoever
/// needs to know that logging is available, instead of a global flag.
pub struct LoggerHandle {
    pub min_level: LogLevel,
}

/// Whether logging has been set up: the capability handle exists.
pub fn is_set_up(logger: &Option<LoggerHandle>) -> (r: bool)
    ensures
        r == logger.is_some(),
{
    matches!(logger, Some(_))
}

/// The minimum severity that should be logged for a given build kind:
/// debug builds log down to `Debug`, release builds down to `Info`.
pub fn min_log_level(debug: bool) -> (r: LogLevel)
    ensures
        r == (if debug {
            LogLevel::Debug
        } else {
            LogLevel::Info
        }),
{
    if debug {
        LogLevel::Debug
    } else {
        LogLevel::Info
    }
}

} // verus!
