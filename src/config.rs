//! The configuration of a merge and its validation.

use crate::errors::ConfigError;
use crate::text::{parse_usize, parsed_usize};
use vstd::prelude::*;

verus! {

/// The fewest and most threads a configuration may ask for.
pub const MIN_THREADS: usize = 1;
pub const MAX_THREADS: usize = 100;

/// The thread count used when none is given.
pub const DEFAULT_THREADS: usize = 10;

/// The settings of a merge, as a configuration file holds them.
#[derive(Debug, Clone)]
pub struct Config {
    /// The file that lists the input files.
    pub input_files: Option<String>,
    /// Where the merged output goes.
    pub output_files: Option<String>,
    pub threads: Option<usize>,
    pub verbose: bool,
    pub debug: bool,
}

/// What the file system says about the paths of a configuration.
#[derive(Debug, Clone, Copy)]
pub struct PathFacts {
    /// The input list exists.
    pub input_exists: bool,
    /// The input list is a regular file.
    pub input_is_file: bool,
    /// The output path has a parent directory part.
    pub output_has_parent: bool,
    /// That parent exists.
    pub output_parent_exists: bool,
    /// That parent is a directory.
    pub output_parent_is_dir: bool,
    /// A file can be created in that parent.
    pub output_parent_writable: bool,
}

/// A thread count outside 1..=100.
pub open spec fn bad_thread_count(t: usize) -> bool {
    t < MIN_THREADS || t > MAX_THREADS
}

/// What validating `c` gives, in the order the checks are made.
pub open spec fn validation_outcome(c: Config, facts: PathFacts, output_parent: String) -> Result<
    (),
    ConfigError,
> {
    if c.threads is Some && bad_thread_count(c.threads->0) {
        Err(ConfigError::InvalidThreadCount(c.threads->0))
    } else if c.input_files is None {
        Err(ConfigError::MissingInputFiles)
    } else if !facts.input_exists {
        Err(ConfigError::InputFileNotFound(c.input_files->0))
    } else if c.output_files is None {
        Err(ConfigError::MissingOutputFiles)
    } else if c.input_files->0@ == c.output_files->0@ {
        Err(ConfigError::InputOutputPathsEqual)
    } else if facts.output_has_parent && !(facts.output_parent_exists
        && facts.output_parent_writable) {
        Err(ConfigError::OutputDirectoryNotWritable(output_parent))
    } else {
        Ok(())
    }
}

impl Default for Config {
    fn default() -> (r: Self)
        ensures
            r.input_files is None,
            r.output_files is None,
            r.threads == Some(DEFAULT_THREADS),
            r.verbose,
            r.debug,
    {
        Self::template()
    }
}

impl Config {
    /// The template a new configuration file starts from: no paths, ten
    /// threads, verbose and debug on.
    pub fn template() -> (r: Self)
        ensures
            r.input_files is None,
            r.output_files is None,
            r.threads == Some(DEFAULT_THREADS),
            r.verbose,
            r.debug,
    {
        Config { input_files: None, output_files: None, threads: Some(DEFAULT_THREADS), verbose: true, debug: true }
    }

    /// Checks the configuration against what the file system says of its
    /// paths: a thread count, if given, is within 1..=100; the input list is
    /// given and exists; the output is given and differs from the input;
    /// the output's directory, if named, exists and is writable.
    pub fn validate(&self, facts: PathFacts, output_parent: &String) -> (r: Result<(), ConfigError>)
        ensures
            r == validation_outcome(*self, facts, *output_parent),
    {
        if let Some(t) = self.threads {
            if t < MIN_THREADS || t > MAX_THREADS {
                return Err(ConfigError::InvalidThreadCount(t));
            }
        }
        let input = match &self.input_files {
            Some(p) => p,
            None => {
                return Err(ConfigError::MissingInputFiles);
            },
        };
        if !facts.input_exists {
            return Err(ConfigError::InputFileNotFound(input.clone()));
        }
        let output = match &self.output_files {
            Some(p) => p,
            None => {
                return Err(ConfigError::MissingOutputFiles);
            },
        };
        if *input == *output {
            return Err(ConfigError::InputOutputPathsEqual);
        }
        if facts.output_has_parent && !(facts.output_parent_exists && facts.output_parent_writable) {
            return Err(ConfigError::OutputDirectoryNotWritable(output_parent.clone()));
        }
        Ok(())
    }

    /// The configuration that the guided setup's answers describe. The
    /// thread count must read as a number (else `InvalidThreadCount(0)`)
    /// within 1..=100 (else `InvalidThreadCount` of it).
    pub fn from_answers(
        input_files: String,
        output_files: String,
        threads: &str,
        verbose: bool,
        debug: bool,
    ) -> (r: Result<Config, ConfigError>)
        ensures
            parsed_usize(threads@) is None ==> r == Err::<Config, ConfigError>(
                ConfigError::InvalidThreadCount(0),
            ),
            parsed_usize(threads@) matches Some(n) ==> {
                if n < MIN_THREADS || n > MAX_THREADS {
                    r == Err::<Config, ConfigError>(ConfigError::InvalidThreadCount(n as usize))
                } else {
                    r matches Ok(c) && c.input_files == Some(input_files) && c.output_files == Some(
                        output_files,
                    ) && c.threads == Some(n as usize) && c.verbose == verbose && c.debug == debug
                }
            },
    {
        let n = match parse_usize(threads) {
            Some(n) => n,
            None => {
                return Err(ConfigError::InvalidThreadCount(0));
            },
        };
        if n < MIN_THREADS || n > MAX_THREADS {
            return Err(ConfigError::InvalidThreadCount(n));
        }
        Ok(
            Config {
                input_files: Some(input_files),
                output_files: Some(output_files),
                threads: Some(n),
                verbose,
                debug,
            },
        )
    }
}

/// Checks of a configuration's paths against the file system.
pub struct ConfigValidator;

/// What `ConfigValidator::validate_config` gives.
pub open spec fn config_check(c: Config, facts: PathFacts, output_parent: String) -> Result<
    (),
    ConfigError,
> {
    match c.input_files {
        None => Err(ConfigError::MissingInputFiles),
        Some(input) => if !(facts.input_exists && facts.input_is_file) {
            Err(ConfigError::InputFileNotFound(input))
        } else if facts.output_has_parent && facts.output_parent_exists
            && !facts.output_parent_is_dir {
            Err(ConfigError::OutputDirectoryNotWritable(output_parent))
        } else if c.threads is Some && bad_thread_count(c.threads->0) {
            Err(ConfigError::InvalidThreadCount(c.threads->0))
        } else {
            Ok(())
        },
    }
}

impl ConfigValidator {
    /// The input list must be an existing file; the output's directory, if
    /// it exists, must be a directory; a thread count must be within 1..=100.
    pub fn validate_config(config: &Config, facts: PathFacts, output_parent: &String) -> (r:
        Result<(), ConfigError>)
        ensures
            r == config_check(*config, facts, *output_parent),
    {
        let input = match &config.input_files {
            Some(p) => p,
            None => {
                return Err(ConfigError::MissingInputFiles);
            },
        };
        Self::validate_input_file(input, facts)?;
        if facts.output_has_parent {
            Self::validate_directory(output_parent, facts)?;
        }
        if let Some(t) = config.threads {
            if t < MIN_THREADS || t > MAX_THREADS {
                return Err(ConfigError::InvalidThreadCount(t));
            }
        }
        Ok(())
    }

    /// The input list exists and is a regular file.
    pub fn validate_input_file(path: &String, facts: PathFacts) -> (r: Result<(), ConfigError>)
        ensures
            r == if facts.input_exists && facts.input_is_file {
                Ok(())
            } else {
                Err(ConfigError::InputFileNotFound(*path))
            },
    {
        if !(facts.input_exists && facts.input_is_file) {
            return Err(ConfigError::InputFileNotFound(path.clone()));
        }
        Ok(())
    }

    /// A path that exists is a directory.
    pub fn validate_directory(path: &String, facts: PathFacts) -> (r: Result<(), ConfigError>)
        ensures
            r == if facts.output_parent_exists && !facts.output_parent_is_dir {
                Err(ConfigError::OutputDirectoryNotWritable(*path))
            } else {
                Ok(())
            },
    {
        if facts.output_parent_exists && !facts.output_parent_is_dir {
            return Err(ConfigError::OutputDirectoryNotWritable(path.clone()));
        }
        Ok(())
    }
}

} // verus!
