//! Which command a command line asks for.

use crate::cli::{Cli, Commands, ConfigCommand, ConfigSetArgs, DefaultArgs};
use vstd::prelude::*;

verus! {

/// The command to carry out.
#[derive(Debug, Clone, PartialEq, Eq)]
pub enum Dispatch {
    /// Create the settings file.
    ConfigInit,
    /// Change values in the settings file.
    ConfigSet(ConfigSetArgs),
    /// Put the settings file back to default values.
    ConfigReset,
    /// Delete the settings file.
    ConfigDelete,
    /// Run the benchmark.
    Benchmark(DefaultArgs),
}

/// The command that `cli` asks for: the subcommand if one was given, else
/// a benchmark run with the options.
pub open spec fn dispatch(cli: Cli) -> Dispatch {
    match cli.command {
        Some(Commands::Config(ConfigCommand::Init(_))) => Dispatch::ConfigInit,
        Some(Commands::Config(ConfigCommand::SetValues(set_args))) => Dispatch::ConfigSet(
            set_args,
        ),
        Some(Commands::Config(ConfigCommand::Reset(_))) => Dispatch::ConfigReset,
        Some(Commands::Config(ConfigCommand::Delete(_))) => Dispatch::ConfigDelete,
        None => Dispatch::Benchmark(cli.args),
    }
}

/// The program as a whole.
#[derive(Debug, Clone)]
pub struct Application;

impl Application {
    /// The command that `cli` asks for. With a subcommand the options
    /// outside it are not looked at.
    pub fn run(cli: Cli) -> (d: Dispatch)
        ensures
            d == dispatch(cli),
    {
        match cli.command {
            Some(Commands::Config(ConfigCommand::Init(_))) => Dispatch::ConfigInit,
            Some(Commands::Config(ConfigCommand::SetValues(set_args))) => Dispatch::ConfigSet(
                set_args,
            ),
            Some(Commands::Config(ConfigCommand::Reset(_))) => Dispatch::ConfigReset,
            Some(Commands::Config(ConfigCommand::Delete(_))) => Dispatch::ConfigDelete,
            None => Dispatch::Benchmark(cli.args),
        }
    }
}

} // verus!
