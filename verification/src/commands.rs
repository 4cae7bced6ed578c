//! What each command does.
//!
//! A command is handed what was found on disk and answers with what is to
//! be done: a command on the settings file with what is to be done there
//! and what to tell the user once it is done, the benchmark with the
//! settings it is to run with.

use crate::bench::BenchmarkRunner;
use crate::cli::{ConfigSetArgs, DefaultArgs};
use crate::config::{is_default, is_start_of, takes_over, DnsBenchConfig, LoadConfigResult};
use vstd::prelude::*;

verus! {

/// A command of the program.
pub trait Command<A> {
    /// What the command answers with.
    type Outcome;

    /// What is to be done, given the arguments of the command and what
    /// was found on disk.
    fn run(&self, args: A) -> Self::Outcome;
}

/// What `config set` is handed.
#[derive(Debug, Clone, PartialEq, Eq)]
pub struct ConfigSetInput {
    /// The options that were given.
    pub args: ConfigSetArgs,
    /// What loading the settings file gave, or `None` where there is no file.
    pub existing: Option<LoadConfigResult>,
    /// The absolute form of the custom servers file that was given, or
    /// `None` if it has none.
    pub canonical_servers_file: Option<String>,
}

/// What the benchmark is handed.
#[derive(Debug, Clone, PartialEq, Eq)]
pub struct BenchmarkInput {
    /// The options that were given.
    pub args: DefaultArgs,
    /// What loading the settings file gave.
    pub loaded: LoadConfigResult,
    /// The absolute form of the custom servers file that was given, or
    /// `None` if it has none.
    pub canonical_servers_file: Option<String>,
}

/// What is to be done to the settings file.
#[derive(Debug, Clone, PartialEq, Eq)]
pub enum ConfigAction {
    /// Nothing.
    Keep,
    /// Write these settings.
    Write(DnsBenchConfig),
    /// Delete the file.
    Delete,
}

/// What a command decided: what to do, and what to say when it is done.
#[derive(Debug, Clone, PartialEq, Eq)]
pub struct CommandReport {
    pub action: ConfigAction,
    pub message: String,
}

/// `config init`: creates the settings file unless there is one.
#[derive(Debug, Clone)]
pub struct ConfigInitCommand;

/// `config set`: changes values in the settings file.
#[derive(Debug, Clone)]
pub struct ConfigSetCommand;

/// `config reset`: puts the settings file back to default values.
#[derive(Debug, Clone)]
pub struct ConfigResetCommand;

/// `config delete`: deletes the settings file.
#[derive(Debug, Clone)]
pub struct ConfigDeleteCommand;

/// The benchmark run itself.
#[derive(Debug, Clone)]
pub struct BenchmarkRunnerCommand;

impl Command<bool> for ConfigInitCommand {
    type Outcome = CommandReport;

    /// Where the file exists it is left alone; where it does not, it is
    /// written with default values.
    fn run(&self, exists: bool) -> (report: CommandReport)
        ensures
            exists ==> report.action is Keep && report.message@
                == "Config file already exists."@,
            !exists ==> (report.action matches ConfigAction::Write(c) && is_default(c))
                && report.message@ == "Config file created with default values."@,
    {
        if exists {
            CommandReport {
                action: ConfigAction::Keep,
                message: "Config file already exists.".to_owned(),
            }
        } else {
            CommandReport {
                action: ConfigAction::Write(DnsBenchConfig::default()),
                message: "Config file created with default values.".to_owned(),
            }
        }
    }
}

impl Command<ConfigSetInput> for ConfigSetCommand {
    type Outcome = CommandReport;

    /// Where the file exists, the settings loaded from it (the default
    /// ones, if it could not be loaded) take over the options that were
    /// given and are written back. Where there is no file, nothing is
    /// written.
    fn run(&self, input: ConfigSetInput) -> (report: CommandReport)
        ensures
            input.existing is None ==> report.action is Keep && report.message@
                == "Config file does not exist. Run `dns-bench config init` first."@,
            input.existing matches Some(loaded) ==> report.message@ == "Config file updated."@
                && (report.action matches ConfigAction::Write(c) && exists|start: DnsBenchConfig|
                is_start_of(start, loaded) && #[trigger] takes_over(
                    c,
                    start,
                    input.args.common,
                    input.canonical_servers_file,
                )),
    {
        match input.existing {
            None => CommandReport {
                action: ConfigAction::Keep,
                message: "Config file does not exist. Run `dns-bench config init` first.".to_owned(),
            },
            Some(loaded) => {
                let mut config = loaded.unwrap_or_default();
                let ghost start = config;
                config.resolve_args(&input.args.common, input.canonical_servers_file);
                assert(takes_over(
                    config,
                    start,
                    input.args.common,
                    input.canonical_servers_file,
                ));
                CommandReport {
                    action: ConfigAction::Write(config),
                    message: "Config file updated.".to_owned(),
                }
            },
        }
    }
}

impl Command<bool> for ConfigResetCommand {
    type Outcome = CommandReport;

    /// Where the file exists it is written anew with default values.
    fn run(&self, exists: bool) -> (report: CommandReport)
        ensures
            !exists ==> report.action is Keep && report.message@
                == "Config file does not exist."@,
            exists ==> (report.action matches ConfigAction::Write(c) && is_default(c))
                && report.message@ == "Config file reset to default values."@,
    {
        if !exists {
            CommandReport {
                action: ConfigAction::Keep,
                message: "Config file does not exist.".to_owned(),
            }
        } else {
            CommandReport {
                action: ConfigAction::Write(DnsBenchConfig::default()),
                message: "Config file reset to default values.".to_owned(),
            }
        }
    }
}

impl Command<bool> for ConfigDeleteCommand {
    type Outcome = CommandReport;

    /// Where the file exists it is deleted.
    fn run(&self, exists: bool) -> (report: CommandReport)
        ensures
            !exists ==> report.action is Keep && report.message@
                == "Config file does not exist."@,
            exists ==> report.action is Delete && report.message@ == "Config file deleted."@,
    {
        if !exists {
            CommandReport {
                action: ConfigAction::Keep,
                message: "Config file does not exist.".to_owned(),
            }
        } else {
            CommandReport {
                action: ConfigAction::Delete,
                message: "Config file deleted.".to_owned(),
            }
        }
    }
}

impl Command<BenchmarkInput> for BenchmarkRunnerCommand {
    type Outcome = DnsBenchConfig;

    /// The settings the benchmark is to run with: what the settings file
    /// gave (the default ones, if it gave none), with the options of the
    /// command line taken over.
    fn run(&self, input: BenchmarkInput) -> (config: DnsBenchConfig)
        ensures
            exists|start: DnsBenchConfig|
                is_start_of(start, input.loaded) && #[trigger] takes_over(
                    config,
                    start,
                    input.args.args,
                    input.canonical_servers_file,
                ),
    {
        BenchmarkRunner::resolve_config(&input.args, input.loaded, input.canonical_servers_file)
    }
}

} // verus!
