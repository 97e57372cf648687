//! Command-line options of the daemon.
use vstd::prelude::*;

verus! {

/// The options the daemon is started with.
#[derive(Debug, Clone)]
pub struct Cli {
    pub daemon: bool,
    pub no_daemon: bool,
    pub level: LogLevel,
    pub config: Option<String>,
    pub watch: Option<String>,
}

/// The log level asked for on the command line.
#[derive(Debug, Clone, Copy, PartialEq, Eq, Structural)]
pub enum LogLevel {
    Debug,
    Info,
    Warn,
    Error,
}

#[verifier::external_type_specification]
#[verifier::external_body]
pub struct ExLevelFilter(log::LevelFilter);

impl LogLevel {
    /// The `log` filter of this level: `Debug`, `Info`, `Warn` or `Error`,
    /// one for one. Nothing is stated of the result: `log::LevelFilter` is
    /// an outside type whose values this library does not model.
    #[verifier::external_body]
    pub fn as_log_level_filter(&self) -> log::LevelFilter {
        match self {
            LogLevel::Debug => log::LevelFilter::Debug,
            LogLevel::Info => log::LevelFilter::Info,
            LogLevel::Warn => log::LevelFilter::Warn,
            LogLevel::Error => log::LevelFilter::Error,
        }
    }
}

} // verus!
