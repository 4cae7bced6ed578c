use dns_bench::app::{Application, Dispatch};
use dns_bench::args::{Format, IpAddr, Protocol, Style};
use dns_bench::cli::{
    Cli, Commands, ConfigCommand, ConfigDeleteArgs, ConfigInitArgs, ConfigResetArgs, ConfigSetArgs,
    DefaultArgs, SharedArgs,
};
use dns_bench::commands::{
    BenchmarkInput, BenchmarkRunnerCommand, Command, CommandReport, ConfigAction,
    ConfigDeleteCommand, ConfigInitCommand, ConfigResetCommand, ConfigSetCommand, ConfigSetInput,
};
use dns_bench::config::{
    DnsBenchConfig, LoadConfigError, LoadConfigResult, CONFIG_DIR_NAME, CONFIG_FILE_NAME,
};

fn no_args() -> SharedArgs {
    SharedArgs {
        domain: None,
        threads: None,
        requests: None,
        timeout: None,
        protocol: None,
        name_servers_ip: None,
        lookup_ip: None,
        style: None,
        custom_servers_file: None,
        format: None,
        skip_system_servers: false,
        skip_gateway_detection: false,
    }
}

fn all_args() -> SharedArgs {
    SharedArgs {
        domain: Some(String::from("example.org")),
        threads: Some(3),
        requests: Some(7),
        timeout: Some(9),
        protocol: Some(Protocol::Tcp),
        name_servers_ip: Some(IpAddr::V6),
        lookup_ip: Some(IpAddr::V6),
        style: Some(Style::Markdown),
        custom_servers_file: Some(String::from("servers.txt")),
        format: Some(Format::Csv),
        skip_system_servers: true,
        skip_gateway_detection: true,
    }
}

fn changed() -> DnsBenchConfig {
    DnsBenchConfig {
        domain: String::from("example.org"),
        threads: 3,
        requests: 7,
        timeout: 9,
        protocol: Protocol::Tcp,
        name_servers_ip: IpAddr::V6,
        lookup_ip: IpAddr::V6,
        style: Style::Markdown,
        custom_servers_file: Some(String::from("/home/user/servers.txt")),
        format: Format::Csv,
        skip_system_servers: true,
        skip_gateway_detection: true,
    }
}

#[test]
fn default_settings() {
    assert_eq!(
        DnsBenchConfig::default(),
        DnsBenchConfig {
            domain: String::from("google.com"),
            threads: 8,
            requests: 25,
            timeout: 1,
            protocol: Protocol::Udp,
            name_servers_ip: IpAddr::V4,
            lookup_ip: IpAddr::V4,
            style: Style::Rounded,
            custom_servers_file: None,
            format: Format::HumanReadable,
            skip_system_servers: false,
            skip_gateway_detection: false,
        }
    );
    assert_eq!(Format::default(), Format::HumanReadable);
    assert_eq!(CONFIG_DIR_NAME, ".dns-bench");
    assert_eq!(CONFIG_FILE_NAME, "config.toml");
}

#[test]
fn no_options_change_nothing() {
    let mut config = changed();
    config.resolve_args(&no_args(), None);
    assert_eq!(config, changed());
    let mut config = DnsBenchConfig::default();
    config.resolve_args(&no_args(), Some(String::from("/ignored")));
    assert_eq!(config, DnsBenchConfig::default());
}

#[test]
fn every_option_given_is_taken_over() {
    let mut config = DnsBenchConfig::default();
    config.resolve_args(&all_args(), Some(String::from("/home/user/servers.txt")));
    assert_eq!(config, changed());
}

#[test]
fn single_options_are_taken_over_alone() {
    let mut config = DnsBenchConfig::default();
    config.resolve_args(&SharedArgs { threads: Some(255), ..no_args() }, None);
    assert_eq!(config, DnsBenchConfig { threads: 255, ..DnsBenchConfig::default() });
    config.resolve_args(&SharedArgs { format: Some(Format::Json), ..no_args() }, None);
    assert_eq!(
        config,
        DnsBenchConfig { threads: 255, format: Format::Json, ..DnsBenchConfig::default() }
    );
}

#[test]
fn custom_servers_file_that_cannot_be_made_absolute_is_unset() {
    let mut config = changed();
    config.resolve_args(
        &SharedArgs { custom_servers_file: Some(String::from("missing.txt")), ..no_args() },
        None,
    );
    assert_eq!(config.custom_servers_file, None);
}

#[test]
fn switches_turn_on_and_never_off() {
    let mut config = changed();
    config.resolve_args(&no_args(), None);
    assert!(config.skip_system_servers);
    assert!(config.skip_gateway_detection);
    let mut config = DnsBenchConfig::default();
    config.resolve_args(&SharedArgs { skip_gateway_detection: true, ..no_args() }, None);
    assert!(!config.skip_system_servers);
    assert!(config.skip_gateway_detection);
}

#[test]
fn base_timeout_is_in_milliseconds() {
    assert_eq!(DnsBenchConfig::default().base_timeout_ms(), 1000);
    assert_eq!(changed().base_timeout_ms(), 9000);
    assert_eq!(DnsBenchConfig { timeout: 0, ..changed() }.base_timeout_ms(), 0);
}

#[test]
fn settings_as_text() {
    assert_eq!(
        DnsBenchConfig::default().to_text(),
        "domain: google.com\nthreads: 8\nrequests: 25\ntimeout: 1\nprotocol: udp\n\
         name-servers-ip: v4\nlookup-ip: v4\nstyle: rounded\ncustom-servers-file: null\n\
         format: human-readable\nskip-system-servers: false\nskip-gateway-detection: false\n"
    );
    assert_eq!(
        changed().to_text(),
        "domain: example.org\nthreads: 3\nrequests: 7\ntimeout: 9\nprotocol: tcp\n\
         name-servers-ip: v6\nlookup-ip: v6\nstyle: markdown\n\
         custom-servers-file: /home/user/servers.txt\n\
         format: csv\nskip-system-servers: true\nskip-gateway-detection: true\n"
    );
    let big = DnsBenchConfig { threads: u16::MAX, timeout: u64::MAX, ..changed() };
    assert!(big.to_text().contains("threads: 65535\n"));
    assert!(big.to_text().contains("timeout: 18446744073709551615\n"));
}

#[test]
fn load_errors_as_text() {
    assert_eq!(
        LoadConfigError::UserDirs.to_text(),
        "UserDirs: No valid home directory path could be retrieved from the operating system."
    );
    assert_eq!(LoadConfigError::Io(String::from("denied")).to_text(), "Io: denied");
    assert_eq!(LoadConfigError::Toml(String::from("bad key")).to_text(), "Toml: bad key");
}

#[test]
fn loaded_settings_or_default_ones() {
    assert_eq!(LoadConfigResult::Loaded(changed()).unwrap_or_default(), changed());
    assert_eq!(LoadConfigResult::FileDoesNotExist.unwrap_or_default(), DnsBenchConfig::default());
    assert_eq!(
        LoadConfigResult::Error(LoadConfigError::UserDirs).unwrap_or_default(),
        DnsBenchConfig::default()
    );
    assert_eq!(
        LoadConfigResult::Error(LoadConfigError::Toml(String::from("x"))).unwrap_or_default(),
        DnsBenchConfig::default()
    );
}

#[test]
fn names_of_the_values() {
    assert_eq!(IpAddr::V4.name(), "v4");
    assert_eq!(IpAddr::V6.name(), "v6");
    assert_eq!(Protocol::Tcp.name(), "tcp");
    assert_eq!(Protocol::Udp.name(), "udp");
    assert_eq!(Format::HumanReadable.name(), "human-readable");
    assert_eq!(Format::Json.name(), "json");
    assert_eq!(Format::Xml.name(), "xml");
    assert_eq!(Format::Csv.name(), "csv");
    let styles = [
        (Style::Empty, "empty"),
        (Style::Blank, "blank"),
        (Style::Ascii, "ascii"),
        (Style::Psql, "psql"),
        (Style::Markdown, "markdown"),
        (Style::Modern, "modern"),
        (Style::Sharp, "sharp"),
        (Style::Rounded, "rounded"),
        (Style::ModernRounded, "modern-rounded"),
        (Style::Extended, "extended"),
        (Style::Dots, "dots"),
        (Style::ReStructuredText, "re-structured-text"),
        (Style::AsciiRounded, "ascii-rounded"),
    ];
    for (style, name) in styles {
        assert_eq!(style.name(), name);
        assert_eq!(Style::from_name(name), Some(style));
    }
}

#[test]
fn values_by_name() {
    assert_eq!(IpAddr::from_name("v4"), Some(IpAddr::V4));
    assert_eq!(IpAddr::from_name("v6"), Some(IpAddr::V6));
    assert_eq!(IpAddr::from_name("V4"), None);
    assert_eq!(IpAddr::from_name("v5"), None);
    assert_eq!(Protocol::from_name("tcp"), Some(Protocol::Tcp));
    assert_eq!(Protocol::from_name("udp"), Some(Protocol::Udp));
    assert_eq!(Protocol::from_name("udp "), None);
    assert_eq!(Format::from_name("human-readable"), Some(Format::HumanReadable));
    assert_eq!(Format::from_name("json"), Some(Format::Json));
    assert_eq!(Format::from_name("xml"), Some(Format::Xml));
    assert_eq!(Format::from_name("csv"), Some(Format::Csv));
    assert_eq!(Format::from_name("HumanReadable"), None);
    assert_eq!(Format::from_name(""), None);
    assert_eq!(Style::from_name("modern_rounded"), None);
    assert_eq!(Style::from_name("Rounded"), None);
}

fn cli(command: Option<Commands>) -> Cli {
    Cli { args: DefaultArgs { args: all_args(), save_config: true }, command }
}

#[test]
fn command_line_without_a_subcommand_runs_the_benchmark() {
    assert_eq!(
        Application::run(cli(None)),
        Dispatch::Benchmark(DefaultArgs { args: all_args(), save_config: true })
    );
}

#[test]
fn subcommands_are_dispatched() {
    assert_eq!(
        Application::run(cli(Some(Commands::Config(ConfigCommand::Init(ConfigInitArgs))))),
        Dispatch::ConfigInit
    );
    assert_eq!(
        Application::run(cli(Some(Commands::Config(ConfigCommand::Reset(ConfigResetArgs))))),
        Dispatch::ConfigReset
    );
    assert_eq!(
        Application::run(cli(Some(Commands::Config(ConfigCommand::Delete(ConfigDeleteArgs))))),
        Dispatch::ConfigDelete
    );
    let set = ConfigSetArgs { common: SharedArgs { threads: Some(2), ..no_args() } };
    assert_eq!(
        Application::run(cli(Some(Commands::Config(ConfigCommand::SetValues(set.clone()))))),
        Dispatch::ConfigSet(set)
    );
}

fn report(action: ConfigAction, message: &str) -> CommandReport {
    CommandReport { action, message: String::from(message) }
}

#[test]
fn config_init_creates_only_a_missing_file() {
    assert_eq!(
        ConfigInitCommand.run(true),
        report(ConfigAction::Keep, "Config file already exists.")
    );
    assert_eq!(
        ConfigInitCommand.run(false),
        report(
            ConfigAction::Write(DnsBenchConfig::default()),
            "Config file created with default values."
        )
    );
}

#[test]
fn config_set_changes_only_an_existing_file() {
    let args = ConfigSetArgs { common: SharedArgs { requests: Some(99), ..no_args() } };
    let input = |existing| ConfigSetInput {
        args: args.clone(),
        existing,
        canonical_servers_file: None,
    };
    assert_eq!(
        ConfigSetCommand.run(input(None)),
        report(ConfigAction::Keep, "Config file does not exist. Run `dns-bench config init` first.")
    );
    assert_eq!(
        ConfigSetCommand.run(input(Some(LoadConfigResult::Loaded(changed())))),
        report(
            ConfigAction::Write(DnsBenchConfig { requests: 99, ..changed() }),
            "Config file updated."
        )
    );
    assert_eq!(
        ConfigSetCommand.run(input(Some(LoadConfigResult::Error(LoadConfigError::Toml(
            String::from("broken")
        ))))),
        report(
            ConfigAction::Write(DnsBenchConfig { requests: 99, ..DnsBenchConfig::default() }),
            "Config file updated."
        )
    );
    let file = ConfigSetInput {
        args: ConfigSetArgs {
            common: SharedArgs { custom_servers_file: Some(String::from("list.txt")), ..no_args() },
        },
        existing: Some(LoadConfigResult::FileDoesNotExist),
        canonical_servers_file: Some(String::from("/abs/list.txt")),
    };
    assert_eq!(
        ConfigSetCommand.run(file),
        report(
            ConfigAction::Write(DnsBenchConfig {
                custom_servers_file: Some(String::from("/abs/list.txt")),
                ..DnsBenchConfig::default()
            }),
            "Config file updated."
        )
    );
}

#[test]
fn benchmark_runs_with_the_file_and_the_command_line() {
    let args = DefaultArgs { args: SharedArgs { timeout: Some(5), ..no_args() }, save_config: false };
    let settings = BenchmarkRunnerCommand.run(BenchmarkInput {
        args: args.clone(),
        loaded: LoadConfigResult::Loaded(changed()),
        canonical_servers_file: None,
    });
    assert_eq!(settings, DnsBenchConfig { timeout: 5, ..changed() });
    let settings = BenchmarkRunnerCommand.run(BenchmarkInput {
        args,
        loaded: LoadConfigResult::FileDoesNotExist,
        canonical_servers_file: None,
    });
    assert_eq!(settings, DnsBenchConfig { timeout: 5, ..DnsBenchConfig::default() });
}

#[test]
fn config_reset_and_delete_want_an_existing_file() {
    assert_eq!(
        ConfigResetCommand.run(false),
        report(ConfigAction::Keep, "Config file does not exist.")
    );
    assert_eq!(
        ConfigResetCommand.run(true),
        report(
            ConfigAction::Write(DnsBenchConfig::default()),
            "Config file reset to default values."
        )
    );
    assert_eq!(
        ConfigDeleteCommand.run(false),
        report(ConfigAction::Keep, "Config file does not exist.")
    );
    assert_eq!(ConfigDeleteCommand.run(true), report(ConfigAction::Delete, "Config file deleted."));
}
