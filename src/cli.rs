//! The command line of the tool, as plain values.

use crate::text::str_eq;
use vstd::prelude::*;

verus! {

/// How much is logged.
#[derive(Clone, Copy, Debug, PartialEq, Eq, Structural)]
pub enum LogLevel {
    Error,
    Warn,
    Info,
    Debug,
    Trace,
}

/// The parsed command line.
#[derive(Clone, Debug)]
pub struct Cli {
    /// How often `-v` was given.
    pub verbose: u8,
    pub command: Commands,
    /// The log level named with `--log-level`.
    pub log_level: String,
}

/// The subcommands.
#[derive(Clone, Debug)]
pub enum Commands {
    Merge(MergeArgs),
    GenerateConfig(GenerateConfigArgs),
    GuidedSetup(GuidedSetupArgs),
    Resume(ResumeArgs),
}

/// Arguments of `merge`.
#[derive(Clone, Debug)]
pub struct MergeArgs {
    pub wordlists_file: Option<String>,
    pub rules_file: Option<String>,
    pub output_wordlist: Option<String>,
    pub output_rules: Option<String>,
    pub config: Option<String>,
    pub progress_file: Option<String>,
    pub debug: bool,
}

/// Arguments of `generate-config`.
#[derive(Clone, Debug)]
pub struct GenerateConfigArgs {
    pub output: String,
    pub template: bool,
}

/// Arguments of `guided-setup`.
#[derive(Clone, Debug)]
pub struct GuidedSetupArgs {
    pub output: String,
}

/// Arguments of `resume`.
#[derive(Clone, Debug)]
pub struct ResumeArgs {
    pub progress_file: String,
}

/// The level that a `--log-level` value names; unknown names mean `Info`.
pub open spec fn level_named(s: Seq<char>) -> LogLevel {
    if s == "error"@ {
        LogLevel::Error
    } else if s == "warn"@ {
        LogLevel::Warn
    } else if s == "debug"@ {
        LogLevel::Debug
    } else if s == "trace"@ {
        LogLevel::Trace
    } else {
        LogLevel::Info
    }
}

impl Cli {
    /// The log level asked for: `error`, `warn`, `info`, `debug` or
    /// `trace`; anything else means `info`.
    pub fn log_level(&self) -> (r: LogLevel)
        ensures
            r == level_named(self.log_level@),
    {
        let s = self.log_level.as_str();
        if str_eq(s, "error") {
            LogLevel::Error
        } else if str_eq(s, "warn") {
            LogLevel::Warn
        } else if str_eq(s, "debug") {
            LogLevel::Debug
        } else if str_eq(s, "trace") {
            LogLevel::Trace
        } else {
            LogLevel::Info
        }
    }

    /// How often `-v` was given.
    pub fn verbose_count(&self) -> (r: u8)
        ensures
            r == self.verbose,
    {
        self.verbose
    }
}

} // verus!
