//! The list of servers a run benchmarks, and the settings it runs with.

use crate::args::IpAddr;
use crate::cli::DefaultArgs;
use crate::config::{is_start_of, takes_over, DnsBenchConfig, LoadConfigResult};
use crate::net::{IpAddress, SocketAddress, DNS_PORT};
use crate::servers::{
    entry_views, ipv4_dns_entries, ipv4_dns_table, ipv6_dns_entries, ipv6_dns_table, server,
    DnsEntry, DnsEntryView,
};
use vstd::prelude::*;

verus! {

/// How long the gateway is given to answer when it is tried, in milliseconds.
pub const GATEWAY_RESPONSIVENESS_TEST_TIMEOUT_MILLIS: u64 = 200;

/// The name the gateway is listed under.
pub open spec fn gateway_name() -> Seq<char> {
    "Router (Gateway) DNS"@
}

/// The name a DNS server of the operating system is listed under.
pub open spec fn system_name() -> Seq<char> {
    "System DNS"@
}

/// Whether `ip` is an address of the given IP version.
pub open spec fn ip_version_matches(ip: IpAddress, version: IpAddr) -> bool {
    (ip is V4 && version == IpAddr::V4) || (ip is V6 && version == IpAddr::V6)
}

/// Whether a server with the address `ip` is on the list.
pub open spec fn has_ip(entries: Seq<DnsEntryView>, ip: IpAddress) -> bool {
    exists|i: int| 0 <= i < entries.len() && (#[trigger] entries[i]).socket_addr.ip == ip
}

/// Whether no two servers on the list have the same address.
pub open spec fn distinct_ips(entries: Seq<DnsEntryView>) -> bool {
    forall|i: int, j: int|
        0 <= i < j < entries.len() ==> (#[trigger] entries[i]).socket_addr.ip != (
        #[trigger] entries[j]).socket_addr.ip
}

/// The DNS servers of the operating system as one list: the primary one,
/// then the secondary one if there is one and it is another.
pub open spec fn system_dns_list(primary: IpAddress, secondary: Option<IpAddress>) -> Seq<
    IpAddress,
> {
    match secondary {
        Some(sec) => if sec != primary {
            seq![primary, sec]
        } else {
            seq![primary]
        },
        None => seq![primary],
    }
}

/// Whether the gateway at `ip` is to be listed: it is of the wanted IP
/// version and not on the list yet.
pub open spec fn gateway_wanted(entries: Seq<DnsEntryView>, ip: IpAddress, version: IpAddr) -> bool {
    ip_version_matches(ip, version) && !has_ip(entries, ip)
}

/// The list with the gateway added at the end, where it is wanted.
pub open spec fn with_gateway(
    entries: Seq<DnsEntryView>,
    gateway: Option<IpAddress>,
    version: IpAddr,
) -> Seq<DnsEntryView> {
    match gateway {
        Some(ip) => if gateway_wanted(entries, ip, version) {
            entries.push(server(gateway_name(), ip))
        } else {
            entries
        },
        None => entries,
    }
}

/// The list with the DNS servers of the operating system added at the
/// end, in their order: each that is of the wanted IP version and not on
/// the list when its turn comes.
pub open spec fn with_system_dns(
    entries: Seq<DnsEntryView>,
    system_ips: Seq<IpAddress>,
    version: IpAddr,
) -> Seq<DnsEntryView>
    decreases system_ips.len(),
{
    if system_ips.len() == 0 {
        entries
    } else {
        let before = with_system_dns(entries, system_ips.drop_last(), version);
        if ip_version_matches(system_ips.last(), version) && !has_ip(before, system_ips.last()) {
            before.push(server(system_name(), system_ips.last()))
        } else {
            before
        }
    }
}

/// The addresses in `ips`, if there are any.
pub open spec fn ips_of(ips: Option<Vec<IpAddress>>) -> Seq<IpAddress> {
    match ips {
        Some(v) => v@,
        None => Seq::empty(),
    }
}

/// Whether `ip` is an address of the given IP version.
pub fn is_ip_version_matching(ip: &IpAddress, version: IpAddr) -> (b: bool)
    ensures
        b == ip_version_matches(*ip, version),
{
    match version {
        IpAddr::V4 => ip.is_ipv4(),
        IpAddr::V6 => ip.is_ipv6(),
    }
}

/// Whether a server with the address `ip` is on the list.
pub fn contains_ip(entries: &Vec<DnsEntry>, ip: &IpAddress) -> (b: bool)
    ensures
        b == has_ip(entry_views(entries@), *ip),
{
    let mut i: usize = 0;
    while i < entries.len()
        invariant
            i <= entries.len(),
            forall|k: int| 0 <= k < i ==> (#[trigger] entry_views(entries@)[k]).socket_addr.ip != *ip,
        decreases entries.len() - i,
    {
        if entries[i].socket_addr.ip == *ip {
            assert(entry_views(entries@)[i as int].socket_addr.ip == *ip);
            return true;
        }
        i += 1;
    }
    false
}

/// A benchmark run before it starts: the options it was called with, the
/// settings it runs with, and the DNS servers of the operating system, if
/// they were looked for and found.
#[derive(Debug, Clone, PartialEq, Eq)]
pub struct BenchmarkRunner {
    pub arguments: DefaultArgs,
    pub config: DnsBenchConfig,
    pub system_dns_ips: Option<Vec<IpAddress>>,
}

impl BenchmarkRunner {
    /// The settings of a run: what the settings file gave (the default
    /// ones, if it gave none), with the options of the command line taken
    /// over.
    pub fn resolve_config(
        arguments: &DefaultArgs,
        loaded: LoadConfigResult,
        canonical_servers_file: Option<String>,
    ) -> (config: DnsBenchConfig)
        ensures
            exists|start: DnsBenchConfig|
                is_start_of(start, loaded) && #[trigger] takes_over(
                    config,
                    start,
                    arguments.args,
                    canonical_servers_file,
                ),
    {
        let mut config = loaded.unwrap_or_default();
        let ghost start = config;
        config.resolve_args(&arguments.args, canonical_servers_file);
        assert(takes_over(config, start, arguments.args, canonical_servers_file));
        config
    }

    /// A run with the given settings. `system_dns` is the primary and the
    /// secondary DNS server of the operating system, or `None` where they
    /// were not looked for or not found. They are not kept where the
    /// settings say to skip them.
    pub fn new(
        arguments: DefaultArgs,
        config: DnsBenchConfig,
        system_dns: Option<(IpAddress, Option<IpAddress>)>,
    ) -> (runner: BenchmarkRunner)
        ensures
            runner.arguments == arguments,
            runner.config == config,
            match system_dns {
                Some((primary, secondary)) if !config.skip_system_servers => {
                    runner.system_dns_ips matches Some(ips) && ips@ == system_dns_list(
                        primary,
                        secondary,
                    )
                },
                _ => runner.system_dns_ips is None,
            },
    {
        let system_dns_ips = if !config.skip_system_servers {
            match system_dns {
                Some((primary, secondary)) => {
                    let mut ips: Vec<IpAddress> = Vec::new();
                    ips.push(primary);
                    if let Some(sec) = secondary {
                        if sec != primary {
                            ips.push(sec);
                        }
                    }
                    assert(ips@ =~= system_dns_list(primary, secondary));
                    Some(ips)
                },
                None => None,
            }
        } else {
            None
        };
        BenchmarkRunner { arguments, config, system_dns_ips }
    }

    /// The built-in servers of the IP version that the settings name.
    pub fn built_in_entries(&self) -> (entries: Vec<DnsEntry>)
        ensures
            entry_views(entries@) == (match self.config.name_servers_ip {
                IpAddr::V4 => ipv4_dns_table(),
                IpAddr::V6 => ipv6_dns_table(),
            }),
    {
        match self.config.name_servers_ip {
            IpAddr::V4 => ipv4_dns_entries(),
            IpAddr::V6 => ipv6_dns_entries(),
        }
    }

    /// Where the gateway at `gateway_ip` is to be tried before it is
    /// listed: at its DNS port, if the settings do not say to skip it, it is
    /// of the wanted IP version and it is not on the list yet.
    pub fn gateway_to_probe(&self, entries: &Vec<DnsEntry>, gateway_ip: IpAddress) -> (probe:
        Option<SocketAddress>)
        ensures
            probe == (if !self.config.skip_gateway_detection && gateway_wanted(
                entry_views(entries@),
                gateway_ip,
                self.config.name_servers_ip,
            ) {
                Some(SocketAddress { ip: gateway_ip, port: DNS_PORT, scope_id: 0 })
            } else {
                None
            }),
    {
        if !self.config.skip_gateway_detection && is_ip_version_matching(
            &gateway_ip,
            self.config.name_servers_ip,
        ) && !contains_ip(entries, &gateway_ip) {
            Some(SocketAddress::new(gateway_ip, DNS_PORT))
        } else {
            None
        }
    }

    /// The servers to benchmark: `entries`, the built-in or the custom
    /// ones; then the gateway, where one answered and is wanted; then the
    /// DNS servers of the operating system that are of the wanted IP
    /// version and not on the list yet.
    ///
    /// `gateway` is the address of the gateway if it answered a lookup.
    pub fn fill_dns_entries(&self, entries: Vec<DnsEntry>, gateway: Option<IpAddress>) -> (filled:
        Vec<DnsEntry>)
        ensures
            entry_views(filled@) == with_system_dns(
                with_gateway(
                    entry_views(entries@),
                    if self.config.skip_gateway_detection {
                        None
                    } else {
                        gateway
                    },
                    self.config.name_servers_ip,
                ),
                ips_of(self.system_dns_ips),
                self.config.name_servers_ip,
            ),
    {
        let version = self.config.name_servers_ip;
        let mut filled = entries;
        if !self.config.skip_gateway_detection {
            if let Some(gateway_ip) = gateway {
                if is_ip_version_matching(&gateway_ip, version) && !contains_ip(
                    &filled,
                    &gateway_ip,
                ) {
                    filled.push(DnsEntry::new("Router (Gateway) DNS", gateway_ip));
                    assert(entry_views(filled@) =~= entry_views(entries@).push(
                        server(gateway_name(), gateway_ip),
                    ));
                }
            }
        }
        let ghost base = entry_views(filled@);
        if let Some(system_ips) = &self.system_dns_ips {
            let mut i: usize = 0;
            assert(system_ips@.take(0).len() == 0);
            while i < system_ips.len()
                invariant
                    i <= system_ips.len(),
                    entry_views(filled@) == with_system_dns(base, system_ips@.take(i as int), version),
                decreases system_ips.len() - i,
            {
                let ghost before = entry_views(filled@);
                assert(system_ips@.take(i + 1).drop_last() =~= system_ips@.take(i as int));
                let sys_ip = system_ips[i];
                if !contains_ip(&filled, &sys_ip) && is_ip_version_matching(&sys_ip, version) {
                    filled.push(DnsEntry::new("System DNS", sys_ip));
                    assert(entry_views(filled@) =~= before.push(server(system_name(), sys_ip)));
                }
                i += 1;
            }
            assert(system_ips@.take(i as int) =~= system_ips@);
        }
        filled
    }
}

/// Adding the gateway and the DNS servers of the operating system keeps
/// the servers that were listed, in their places, and lists no address
/// twice that was not listed twice before.
pub proof fn lemma_fill_keeps_distinct(
    entries: Seq<DnsEntryView>,
    gateway: Option<IpAddress>,
    system_ips: Seq<IpAddress>,
    version: IpAddr,
)
    ensures
        entries.is_prefix_of(
            with_system_dns(with_gateway(entries, gateway, version), system_ips, version),
        ),
        distinct_ips(entries) ==> distinct_ips(
            with_system_dns(with_gateway(entries, gateway, version), system_ips, version),
        ),
        forall|i: int|
            entries.len() <= i < with_system_dns(
                with_gateway(entries, gateway, version),
                system_ips,
                version,
            ).len() ==> ip_version_matches(
                (#[trigger] with_system_dns(
                    with_gateway(entries, gateway, version),
                    system_ips,
                    version,
                )[i]).socket_addr.ip,
                version,
            ),
    decreases system_ips.len(),
{
    if system_ips.len() > 0 {
        lemma_fill_keeps_distinct(entries, gateway, system_ips.drop_last(), version);
    }
}

} // verus!
