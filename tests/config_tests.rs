use rustmerger::cli::{Cli, Commands, GenerateConfigArgs, LogLevel, MergeArgs, ResumeArgs};
use rustmerger::commands::CommandHandler;
use rustmerger::config::{Config, ConfigValidator, PathFacts};
use rustmerger::errors::{ConfigError, MergerError};

fn facts() -> PathFacts {
    PathFacts {
        input_exists: true,
        input_is_file: true,
        output_has_parent: true,
        output_parent_exists: true,
        output_parent_is_dir: true,
        output_parent_writable: true,
    }
}

fn config(input: Option<&str>, output: Option<&str>, threads: Option<usize>) -> Config {
    Config {
        input_files: input.map(|s| s.to_string()),
        output_files: output.map(|s| s.to_string()),
        threads,
        verbose: false,
        debug: false,
    }
}

#[test]
fn template_defaults() {
    let c = Config::template();
    assert_eq!(c.threads, Some(10));
    assert!(c.verbose && c.debug);
    assert!(c.input_files.is_none() && c.output_files.is_none());
    let d = Config::default();
    assert_eq!(d.threads, Some(10));
}

#[test]
fn validation_errors() {
    let dir = "/tmp".to_string();
    assert_eq!(config(Some("in"), Some("out"), Some(10)).validate(facts(), &dir), Ok(()));
    assert_eq!(
        config(Some("in"), Some("out"), Some(0)).validate(facts(), &dir),
        Err(ConfigError::InvalidThreadCount(0))
    );
    assert_eq!(
        config(Some("in"), Some("out"), Some(101)).validate(facts(), &dir),
        Err(ConfigError::InvalidThreadCount(101))
    );
    assert_eq!(
        config(None, Some("out"), None).validate(facts(), &dir),
        Err(ConfigError::MissingInputFiles)
    );
    let mut missing = facts();
    missing.input_exists = false;
    assert_eq!(
        config(Some("in"), Some("out"), None).validate(missing, &dir),
        Err(ConfigError::InputFileNotFound("in".to_string()))
    );
    assert_eq!(
        config(Some("in"), None, None).validate(facts(), &dir),
        Err(ConfigError::MissingOutputFiles)
    );
    assert_eq!(
        config(Some("same"), Some("same"), None).validate(facts(), &dir),
        Err(ConfigError::InputOutputPathsEqual)
    );
    let mut locked = facts();
    locked.output_parent_writable = false;
    assert_eq!(
        config(Some("in"), Some("out"), None).validate(locked, &dir),
        Err(ConfigError::OutputDirectoryNotWritable("/tmp".to_string()))
    );
}

#[test]
fn guided_answers() {
    let c = Config::from_answers("i".to_string(), "o".to_string(), "50", true, false).unwrap();
    assert_eq!(c.threads, Some(50));
    assert_eq!(c.input_files, Some("i".to_string()));
    assert!(c.verbose && !c.debug);
    assert_eq!(
        Config::from_answers("i".to_string(), "o".to_string(), "abc", true, false).unwrap_err(),
        ConfigError::InvalidThreadCount(0)
    );
    assert_eq!(
        Config::from_answers("i".to_string(), "o".to_string(), "0", true, false).unwrap_err(),
        ConfigError::InvalidThreadCount(0)
    );
    assert_eq!(
        Config::from_answers("i".to_string(), "o".to_string(), "+101", true, false).unwrap_err(),
        ConfigError::InvalidThreadCount(101)
    );
    assert_eq!(
        Config::from_answers("i".to_string(), "o".to_string(), "99999999999999999999999", true, false)
            .unwrap_err(),
        ConfigError::InvalidThreadCount(0)
    );
}

fn merge_args() -> MergeArgs {
    MergeArgs {
        wordlists_file: None,
        rules_file: None,
        output_wordlist: None,
        output_rules: None,
        config: None,
        progress_file: None,
        debug: false,
    }
}

#[test]
fn merge_plan_resolution() {
    let mut args = merge_args();
    args.rules_file = Some("rules.txt".to_string());
    args.output_rules = Some("out.rule".to_string());
    let plan = CommandHandler::plan_merge(0, args, config(Some("cfg_in"), None, None)).unwrap();
    assert_eq!(plan.input_file, "rules.txt");
    assert_eq!(plan.output_file, "out.rule");
    assert_eq!(plan.threads, 10);
    assert!(!plan.debug && !plan.verbose);

    let plan = CommandHandler::plan_merge(2, merge_args(), config(Some("a"), Some("b"), Some(7)))
        .unwrap();
    assert_eq!((plan.input_file.as_str(), plan.output_file.as_str(), plan.threads), ("a", "b", 7));
    assert!(plan.verbose);

    assert!(matches!(
        CommandHandler::plan_merge(0, merge_args(), config(None, Some("b"), None)),
        Err(MergerError::InputValidation(_))
    ));
    assert!(matches!(
        CommandHandler::plan_merge(0, merge_args(), config(Some("a"), None, None)),
        Err(MergerError::InputValidation(_))
    ));
    let generated = CommandHandler::generate_config(&GenerateConfigArgs {
        output: "c.json".to_string(),
        template: true,
    });
    assert_eq!(generated.threads, Some(10));
}

#[test]
fn log_levels() {
    let cli = |level: &str| Cli {
        verbose: 1,
        command: Commands::Resume(ResumeArgs { progress_file: "p".to_string() }),
        log_level: level.to_string(),
    };
    assert_eq!(cli("error").log_level(), LogLevel::Error);
    assert_eq!(cli("warn").log_level(), LogLevel::Warn);
    assert_eq!(cli("info").log_level(), LogLevel::Info);
    assert_eq!(cli("debug").log_level(), LogLevel::Debug);
    assert_eq!(cli("trace").log_level(), LogLevel::Trace);
    assert_eq!(cli("loud").log_level(), LogLevel::Info);
    assert_eq!(cli("x").verbose_count(), 1);
}

#[test]
fn validator_checks_thread_range() {
    let dir = "/tmp".to_string();
    assert_eq!(
        ConfigValidator::validate_config(&config(Some("in"), Some("out"), Some(101)), facts(), &dir),
        Err(ConfigError::InvalidThreadCount(101))
    );
    assert_eq!(
        ConfigValidator::validate_config(&config(Some("in"), Some("out"), Some(0)), facts(), &dir),
        Err(ConfigError::InvalidThreadCount(0))
    );
    assert_eq!(
        ConfigValidator::validate_config(&config(Some("in"), Some("out"), Some(100)), facts(), &dir),
        Ok(())
    );
    let mut not_dir = facts();
    not_dir.output_parent_is_dir = false;
    assert_eq!(
        ConfigValidator::validate_config(&config(Some("in"), Some("out"), None), not_dir, &dir),
        Err(ConfigError::OutputDirectoryNotWritable("/tmp".to_string()))
    );
    assert_eq!(
        ConfigValidator::validate_config(&config(None, Some("out"), None), facts(), &dir),
        Err(ConfigError::MissingInputFiles)
    );
}
