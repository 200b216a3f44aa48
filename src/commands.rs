//! What the subcommands decide before any file is touched.

use crate::cli::{GenerateConfigArgs, MergeArgs};
use crate::config::{Config, DEFAULT_THREADS};
use crate::errors::MergerError;
use vstd::prelude::*;

verus! {

/// The first of `a`, `b`, `c` that is present.
pub open spec fn first_of(a: Option<String>, b: Option<String>, c: Option<String>) -> Option<
    String,
> {
    if a is Some {
        a
    } else if b is Some {
        b
    } else {
        c
    }
}

/// The settings a merge runs with.
#[derive(Debug, Clone)]
pub struct MergePlan {
    pub input_file: String,
    pub output_file: String,
    pub threads: usize,
    pub debug: bool,
    pub verbose: bool,
}

pub struct CommandHandler;

impl CommandHandler {
    /// The settings of `merge`: the input list is the wordlists file, else
    /// the rules file, else the configuration's; the output likewise; the
    /// thread count is the configuration's, else ten; debug if the flag or
    /// the configuration asks; verbose if `-v` was given or the
    /// configuration asks. A missing input or output is an error.
    pub fn plan_merge(verbose_count: u8, args: MergeArgs, config: Config) -> (r: Result<
        MergePlan,
        MergerError,
    >)
        ensures
            first_of(args.wordlists_file, args.rules_file, config.input_files) is None ==> r
                matches Err(MergerError::InputValidation(_)),
            first_of(args.wordlists_file, args.rules_file, config.input_files) is Some
                && first_of(args.output_wordlist, args.output_rules, config.output_files) is None
                ==> r matches Err(MergerError::InputValidation(_)),
            r is Ok <==> (first_of(args.wordlists_file, args.rules_file, config.input_files) is Some
                && first_of(args.output_wordlist, args.output_rules, config.output_files) is Some),
            r matches Ok(p) ==> {
                &&& Some(p.input_file) == first_of(
                    args.wordlists_file,
                    args.rules_file,
                    config.input_files,
                )
                &&& Some(p.output_file) == first_of(
                    args.output_wordlist,
                    args.output_rules,
                    config.output_files,
                )
                &&& p.threads == match config.threads {
                    Some(t) => t,
                    None => DEFAULT_THREADS,
                }
                &&& p.debug == (args.debug || config.debug)
                &&& p.verbose == (verbose_count > 0 || config.verbose)
            },
    {
        let input = match args.wordlists_file {
            Some(p) => p,
            None => match args.rules_file {
                Some(p) => p,
                None => match config.input_files {
                    Some(p) => p,
                    None => {
                        return Err(
                            MergerError::InputValidation(
                                "No input file specified (use --wordlists-file or --rules-file)".to_owned(),
                            ),
                        );
                    },
                },
            },
        };
        let output = match args.output_wordlist {
            Some(p) => p,
            None => match args.output_rules {
                Some(p) => p,
                None => match config.output_files {
                    Some(p) => p,
                    None => {
                        return Err(
                            MergerError::InputValidation(
                                "No output file specified (use --output-wordlist or --output-rules)".to_owned(),
                            ),
                        );
                    },
                },
            },
        };
        let threads = match config.threads {
            Some(t) => t,
            None => DEFAULT_THREADS,
        };
        Ok(
            MergePlan {
                input_file: input,
                output_file: output,
                threads,
                debug: args.debug || config.debug,
                verbose: verbose_count > 0 || config.verbose,
            },
        )
    }

    /// The configuration `generate-config` writes: the template.
    pub fn generate_config(_args: &GenerateConfigArgs) -> (r: Config)
        ensures
            r.input_files is None,
            r.output_files is None,
            r.threads == Some(DEFAULT_THREADS),
            r.verbose,
            r.debug,
    {
        Config::template()
    }
}

} // verus!
