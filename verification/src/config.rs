//! The settings of a benchmark run.

use crate::args::{Format, IpAddr, Protocol, Style};
use crate::cli::SharedArgs;
use crate::text::{decimal, push_decimal};
use vstd::prelude::*;
use vstd::string::StringExecFns;

verus! {

/// The directory, under the user's home directory, that holds the settings file.
pub const CONFIG_DIR_NAME: &'static str = ".dns-bench";

/// The name of the settings file.
pub const CONFIG_FILE_NAME: &'static str = "config.toml";

/// The settings of a benchmark run.
#[derive(Debug, Clone, PartialEq, Eq)]
pub struct DnsBenchConfig {
    pub domain: String,
    pub threads: u16,
    pub requests: u16,
    /// The timeout of one lookup, in seconds.
    pub timeout: u64,
    pub protocol: Protocol,
    pub name_servers_ip: IpAddr,
    pub lookup_ip: IpAddr,
    pub style: Style,
    pub custom_servers_file: Option<String>,
    pub format: Format,
    pub skip_system_servers: bool,
    pub skip_gateway_detection: bool,
}

/// The text of `s`, if there is one.
pub open spec fn text_of(s: Option<String>) -> Option<Seq<char>> {
    match s {
        Some(s) => Some(s@),
        None => None,
    }
}

/// `given` if there is one, else `current`.
pub open spec fn or_current<T>(given: Option<T>, current: T) -> T {
    match given {
        Some(v) => v,
        None => current,
    }
}

/// `given` if there is one, else `current`.
fn given_or<T: Copy>(given: Option<T>, current: T) -> (r: T)
    ensures
        r == or_current(given, current),
{
    match given {
        Some(v) => v,
        None => current,
    }
}

/// Whether `after` is `before` with every option of `args` that was given
/// taken over: a value replaces the setting, a switch turns it on, and a
/// custom servers file makes the setting `canonical_servers_file`.
pub open spec fn takes_over(
    after: DnsBenchConfig,
    before: DnsBenchConfig,
    args: SharedArgs,
    canonical_servers_file: Option<String>,
) -> bool {
    &&& after.domain@ == or_current(text_of(args.domain), before.domain@)
    &&& after.threads == or_current(args.threads, before.threads)
    &&& after.requests == or_current(args.requests, before.requests)
    &&& after.timeout == or_current(args.timeout, before.timeout)
    &&& after.protocol == or_current(args.protocol, before.protocol)
    &&& after.name_servers_ip == or_current(args.name_servers_ip, before.name_servers_ip)
    &&& after.lookup_ip == or_current(args.lookup_ip, before.lookup_ip)
    &&& after.style == or_current(args.style, before.style)
    &&& after.custom_servers_file == (if args.custom_servers_file is Some {
        canonical_servers_file
    } else {
        before.custom_servers_file
    })
    &&& after.format == or_current(args.format, before.format)
    &&& after.skip_system_servers == (before.skip_system_servers || args.skip_system_servers)
    &&& after.skip_gateway_detection == (before.skip_gateway_detection
        || args.skip_gateway_detection)
}

/// Whether `c` is what loading the settings file gives a run to start
/// from: the settings that were loaded, or the default ones if none were.
pub open spec fn is_start_of(c: DnsBenchConfig, loaded: LoadConfigResult) -> bool {
    match loaded {
        LoadConfigResult::Loaded(l) => c == l,
        _ => is_default(c),
    }
}

/// `true` or `false`.
pub open spec fn bool_text(b: bool) -> Seq<char> {
    if b {
        "true"@
    } else {
        "false"@
    }
}

/// The settings as text for display, one `name: value` per line. A custom
/// servers file that is not set shows as `null`.
pub open spec fn config_text(c: DnsBenchConfig) -> Seq<char> {
    "domain: "@ + c.domain@ + "\n"@
        + "threads: "@ + decimal(c.threads as nat) + "\n"@
        + "requests: "@ + decimal(c.requests as nat) + "\n"@
        + "timeout: "@ + decimal(c.timeout as nat) + "\n"@
        + "protocol: "@ + c.protocol.name_text() + "\n"@
        + "name-servers-ip: "@ + c.name_servers_ip.name_text() + "\n"@
        + "lookup-ip: "@ + c.lookup_ip.name_text() + "\n"@
        + "style: "@ + c.style.name_text() + "\n"@
        + "custom-servers-file: "@ + (match c.custom_servers_file {
        Some(path) => path@,
        None => "null"@,
    }) + "\n"@
        + "format: "@ + c.format.name_text() + "\n"@
        + "skip-system-servers: "@ + bool_text(c.skip_system_servers) + "\n"@
        + "skip-gateway-detection: "@ + bool_text(c.skip_gateway_detection) + "\n"@
}

impl Default for DnsBenchConfig {
    /// The settings of a run for which nothing was chosen.
    fn default() -> (c: DnsBenchConfig)
        ensures
            is_default(c),
    {
        DnsBenchConfig {
            domain: "google.com".to_owned(),
            threads: 8,
            requests: 25,
            timeout: 1,
            protocol: Protocol::Udp,
            name_servers_ip: IpAddr::V4,
            lookup_ip: IpAddr::V4,
            style: Style::Rounded,
            custom_servers_file: None,
            format: Format::HumanReadable,
            skip_system_servers: false,
            skip_gateway_detection: false,
        }
    }
}

impl DnsBenchConfig {
    /// Takes over every option that was given on the command line and
    /// leaves the other settings as they are. A switch that was given turns
    /// its setting on; none turns a setting off.
    ///
    /// `canonical_servers_file` is the absolute form of the custom servers
    /// file that was given, or `None` if it has none. Where a custom servers
    /// file was given, the setting becomes that.
    pub fn resolve_args(&mut self, args: &SharedArgs, canonical_servers_file: Option<String>)
        ensures
            takes_over(*final(self), *old(self), *args, canonical_servers_file),
    {
        if let Some(domain) = &args.domain {
            self.domain = domain.clone();
        }
        self.threads = given_or(args.threads, self.threads);
        self.requests = given_or(args.requests, self.requests);
        self.timeout = given_or(args.timeout, self.timeout);
        self.protocol = given_or(args.protocol, self.protocol);
        self.name_servers_ip = given_or(args.name_servers_ip, self.name_servers_ip);
        self.lookup_ip = given_or(args.lookup_ip, self.lookup_ip);
        self.style = given_or(args.style, self.style);
        if args.custom_servers_file.is_some() {
            self.custom_servers_file = canonical_servers_file;
        }
        self.format = given_or(args.format, self.format);
        self.skip_system_servers = self.skip_system_servers || args.skip_system_servers;
        self.skip_gateway_detection = self.skip_gateway_detection || args.skip_gateway_detection;
    }

    /// The timeout of one lookup in milliseconds.
    pub fn base_timeout_ms(&self) -> (ms: u64)
        requires
            self.timeout * 1000 <= u64::MAX,
        ensures
            ms == self.timeout * 1000,
    {
        self.timeout * 1000
    }

    /// The settings as text for display, one `name: value` per line.
    pub fn to_text(&self) -> (s: String)
        ensures
            s@ == config_text(*self),
    {
        let mut s = String::new();
        s.append("domain: ");
        s.append(self.domain.as_str());
        s.append("\n");
        s.append("threads: ");
        push_decimal(&mut s, self.threads as u128);
        s.append("\n");
        s.append("requests: ");
        push_decimal(&mut s, self.requests as u128);
        s.append("\n");
        s.append("timeout: ");
        push_decimal(&mut s, self.timeout as u128);
        s.append("\n");
        s.append("protocol: ");
        s.append(self.protocol.name());
        s.append("\n");
        s.append("name-servers-ip: ");
        s.append(self.name_servers_ip.name());
        s.append("\n");
        s.append("lookup-ip: ");
        s.append(self.lookup_ip.name());
        s.append("\n");
        s.append("style: ");
        s.append(self.style.name());
        s.append("\n");
        s.append("custom-servers-file: ");
        match &self.custom_servers_file {
            Some(path) => s.append(path.as_str()),
            None => s.append("null"),
        }
        s.append("\n");
        s.append("format: ");
        s.append(self.format.name());
        s.append("\n");
        s.append("skip-system-servers: ");
        s.append(if self.skip_system_servers { "true" } else { "false" });
        s.append("\n");
        s.append("skip-gateway-detection: ");
        s.append(if self.skip_gateway_detection { "true" } else { "false" });
        s.append("\n");
        assert(s@ =~= config_text(*self));
        s
    }
}

/// Why the settings file could not be loaded.
#[derive(Debug, Clone, PartialEq, Eq)]
pub enum LoadConfigError {
    /// The operating system named no home directory.
    UserDirs,
    /// The file could not be read; the text says why.
    Io(String),
    /// The file is no valid settings file; the text says why.
    Toml(String),
}

/// What `UserDirs` is shown as.
pub open spec fn user_dirs_error() -> Seq<char> {
    "No valid home directory path could be retrieved from the operating system."@
}

/// The error as text for display.
pub open spec fn load_error_text(e: LoadConfigError) -> Seq<char> {
    match e {
        LoadConfigError::UserDirs => "UserDirs: "@ + user_dirs_error(),
        LoadConfigError::Io(why) => "Io: "@ + why@,
        LoadConfigError::Toml(why) => "Toml: "@ + why@,
    }
}

impl LoadConfigError {
    /// The error as text for display.
    pub fn to_text(&self) -> (s: String)
        ensures
            s@ == load_error_text(*self),
    {
        let mut s = String::new();
        match self {
            LoadConfigError::UserDirs => {
                s.append("UserDirs: ");
                s.append(
                    "No valid home directory path could be retrieved from the operating system.",
                );
            },
            LoadConfigError::Io(why) => {
                s.append("Io: ");
                s.append(why.as_str());
            },
            LoadConfigError::Toml(why) => {
                s.append("Toml: ");
                s.append(why.as_str());
            },
        }
        assert(s@ =~= load_error_text(*self));
        s
    }
}

/// What came of loading the settings file.
#[derive(Debug, Clone, PartialEq, Eq)]
pub enum LoadConfigResult {
    Loaded(DnsBenchConfig),
    FileDoesNotExist,
    Error(LoadConfigError),
}

impl LoadConfigResult {
    /// The settings that were loaded, or the default ones if none were.
    pub fn unwrap_or_default(self) -> (c: DnsBenchConfig)
        ensures
            is_start_of(c, self),
    {
        match self {
            LoadConfigResult::Loaded(c) => c,
            LoadConfigResult::FileDoesNotExist => DnsBenchConfig::default(),
            LoadConfigResult::Error(_) => DnsBenchConfig::default(),
        }
    }
}

/// Whether `c` holds the settings of a run for which nothing was chosen.
pub open spec fn is_default(c: DnsBenchConfig) -> bool {
    &&& c.domain@ == "google.com"@
    &&& c.threads == 8
    &&& c.requests == 25
    &&& c.timeout == 1
    &&& c.protocol == Protocol::Udp
    &&& c.name_servers_ip == IpAddr::V4
    &&& c.lookup_ip == IpAddr::V4
    &&& c.style == Style::Rounded
    &&& c.custom_servers_file is None
    &&& c.format == Format::HumanReadable
    &&& !c.skip_system_servers
    &&& !c.skip_gateway_detection
}

} // verus!
