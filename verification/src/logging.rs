//! Settings of the process-wide logger.

use vstd::prelude::*;
use crate::text::{seq_contains, str_contains};

verus! {

/// The name of the shell's shared package, which a logger is named after by
/// default.
pub const PACKAGE_NAME: &'static str = "baelyks_shell_lib";

/// The version of this package.
pub const PACKAGE_VERSION: &'static str = "0.1.0";

/// How much a logger lets through, from nothing at all to every trace line.
#[derive(Debug, Clone, Copy, PartialEq, Eq)]
pub enum LevelFilter {
    Off,
    Error,
    Warn,
    Info,
    Debug,
    Trace,
}

/// Settings of the process-wide logger, built up with the builder methods
/// and installed by the application at start-up.
#[derive(Debug, Clone, Copy)]
pub struct Logger {
    pub name: &'static str,
    pub version: &'static str,
    pub level: LevelFilter,
    pub only_baelyks: bool,
}

impl Logger {
    /// Default settings: `Info` level, and only records from the shell's own
    /// crates.
    pub open spec fn spec_default() -> Logger {
        Logger {
            name: PACKAGE_NAME,
            version: PACKAGE_VERSION,
            level: LevelFilter::Info,
            only_baelyks: true,
        }
    }

    /// A logger named `name`, with the default settings otherwise.
    pub fn with_name(name: &'static str) -> (logger: Logger)
        ensures
            logger == (Logger { name, ..Logger::spec_default() }),
    {
        Logger { name, ..Logger::default() }
    }

    pub fn name(self, name: &'static str) -> (logger: Logger)
        ensures
            logger == (Logger { name, ..self }),
    {
        Logger { name, ..self }
    }

    pub fn version(self, version: &'static str) -> (logger: Logger)
        ensures
            logger == (Logger { version, ..self }),
    {
        Logger { version, ..self }
    }

    pub fn level(self, level: LevelFilter) -> (logger: Logger)
        ensures
            logger == (Logger { level, ..self }),
    {
        Logger { level, ..self }
    }

    pub fn only_baelyks(self, only_baelyks: bool) -> (logger: Logger)
        ensures
            logger == (Logger { only_baelyks, ..self }),
    {
        Logger { only_baelyks, ..self }
    }

    /// Whether a record logged from the module path `target` is kept: all are
    /// when dependency logs are on, otherwise only the shell's own.
    pub fn accepts_target(&self, target: &str) -> (accepted: bool)
        ensures
            accepted == (!self.only_baelyks || seq_contains(target@, "baelyks"@)),
    {
        !self.only_baelyks || str_contains(target, "baelyks")
    }

    /// The word the start-up message uses for the dependency logs: `"off"`
    /// when only the shell's own records are kept, `"on"` otherwise.
    pub fn dependency_logs(&self) -> (word: &'static str)
        ensures
            word@ == (if self.only_baelyks { "off"@ } else { "on"@ }),
    {
        if self.only_baelyks {
            "off"
        } else {
            "on"
        }
    }
}

impl Default for Logger {
    fn default() -> (logger: Logger)
        ensures
            logger == Logger::spec_default(),
    {
        Logger {
            name: PACKAGE_NAME,
            version: PACKAGE_VERSION,
            level: LevelFilter::Info,
            only_baelyks: true,
        }
    }
}

} // verus!
