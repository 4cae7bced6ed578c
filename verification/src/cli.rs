//! The command line as plain values.

use crate::args::{Format, IpAddr, Protocol, Style};
use vstd::prelude::*;

verus! {

/// A whole command line: the options, and the subcommand if one was given.
#[derive(Debug, Clone, PartialEq, Eq)]
pub struct Cli {
    pub args: DefaultArgs,
    pub command: Option<Commands>,
}

/// The options of a benchmark run.
#[derive(Debug, Clone, PartialEq, Eq)]
pub struct DefaultArgs {
    pub args: SharedArgs,
    /// Save the settings to a file in the user's home directory.
    pub save_config: bool,
}

/// The options that a benchmark run and `config set` have in common. One
/// that was not given is `None`, or `false` for a switch.
#[derive(Debug, Clone, PartialEq, Eq)]
pub struct SharedArgs {
    /// The domain to resolve.
    pub domain: Option<String>,
    /// The number of threads to use.
    pub threads: Option<u16>,
    /// The number of requests to make.
    pub requests: Option<u16>,
    /// The timeout in seconds.
    pub timeout: Option<u64>,
    /// The protocol to use.
    pub protocol: Option<Protocol>,
    /// The IP version to use for the name servers.
    pub name_servers_ip: Option<IpAddr>,
    /// The IP version to use for the lookup.
    pub lookup_ip: Option<IpAddr>,
    /// The style to use for the table.
    pub style: Option<Style>,
    /// A custom list of servers to use instead of the built-in ones.
    pub custom_servers_file: Option<String>,
    /// The output format.
    pub format: Option<Format>,
    /// Skip the detection of the system's DNS servers.
    pub skip_system_servers: bool,
    /// Skip the detection of the gateway.
    pub skip_gateway_detection: bool,
}

/// The subcommands.
#[derive(Debug, Clone, PartialEq, Eq)]
pub enum Commands {
    /// Commands that manage the settings file.
    Config(ConfigCommand),
}

/// The commands that manage the settings file.
#[derive(Debug, Clone, PartialEq, Eq)]
pub enum ConfigCommand {
    /// Create a settings file with default values if there is none.
    Init(ConfigInitArgs),
    /// Set one or more values.
    SetValues(ConfigSetArgs),
    /// Reset the settings file to default values.
    Reset(ConfigResetArgs),
    /// Delete the settings file.
    Delete(ConfigDeleteArgs),
}

/// The options of `config init`: none.
#[derive(Debug, Clone, PartialEq, Eq)]
pub struct ConfigInitArgs;

/// The options of `config set`.
#[derive(Debug, Clone, PartialEq, Eq)]
pub struct ConfigSetArgs {
    pub common: SharedArgs,
}

/// The options of `config reset`: none.
#[derive(Debug, Clone, PartialEq, Eq)]
pub struct ConfigResetArgs;

/// The options of `config delete`: none.
#[derive(Debug, Clone, PartialEq, Eq)]
pub struct ConfigDeleteArgs;

} // verus!
