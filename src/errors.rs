//! The errors of the library.

use vstd::prelude::*;

verus! {

/// Why a run failed.
#[derive(Debug)]
pub enum MergerError {
    /// A file could not be read or written.
    Io(String),
    /// An internal failure.
    Anyhow(String),
    /// The configuration is not usable.
    Config(ConfigError),
    /// System information (available memory) could not be had.
    SysInfo(String),
    /// A file could not be processed.
    Processing(String),
    /// Producers and the aggregator lost touch.
    Channel(String),
    /// The input is missing or unusable.
    InputValidation(String),
    /// The checkpoint could not be kept.
    Progress(String),
    /// A run could not be resumed.
    Resume { source: ResumeError },
    /// Deduplication failed.
    Deduplication(String),
    /// A file is not valid UTF-8.
    InvalidUtf8 { path: String, message: String },
}

/// Why a checkpoint cannot be resumed from.
#[derive(Debug, Clone, PartialEq, Eq)]
pub enum ResumeError {
    ProgressFileNotFound(String),
    InvalidProgressFormat,
    CorruptedProgress,
    InputFilesChanged,
}

/// What is wrong with a configuration.
#[derive(Debug, Clone, PartialEq, Eq)]
pub enum ConfigError {
    /// The thread count is not between 1 and 100.
    InvalidThreadCount(usize),
    MissingInputFiles,
    MissingOutputFiles,
    InputFileNotFound(String),
    OutputDirectoryNotWritable(String),
    InputOutputPathsEqual,
    InvalidFormat(String),
    SerializationError(String),
}

} // verus!
