//! The servers to benchmark: what one is, and the lists that are built in.

use crate::net::{IpAddress, SocketAddress, DNS_PORT};
use vstd::prelude::*;

verus! {

/// One DNS server to benchmark: a display name and where to reach it.
#[derive(Debug, Clone, PartialEq, Eq)]
pub struct DnsEntry {
    pub name: String,
    pub socket_addr: SocketAddress,
}

/// A `DnsEntry` as a plain value.
pub struct DnsEntryView {
    pub name: Seq<char>,
    pub socket_addr: SocketAddress,
}

impl View for DnsEntry {
    type V = DnsEntryView;

    open spec fn view(&self) -> DnsEntryView {
        DnsEntryView { name: self.name@, socket_addr: self.socket_addr }
    }
}

/// The entries of `entries` as plain values.
pub open spec fn entry_views(entries: Seq<DnsEntry>) -> Seq<DnsEntryView> {
    entries.map_values(|e: DnsEntry| e@)
}

/// The server called `name` at `ip`, on the DNS port.
pub open spec fn server(name: Seq<char>, ip: IpAddress) -> DnsEntryView {
    DnsEntryView { name, socket_addr: SocketAddress { ip, port: DNS_PORT, scope_id: 0 } }
}

impl DnsEntry {
    /// The server called `name` at `ip`, on the DNS port.
    pub fn new(name: &str, ip: IpAddress) -> (e: DnsEntry)
        ensures
            e@ == server(name@, ip),
    {
        DnsEntry { name: name.to_owned(), socket_addr: SocketAddress::new(ip, DNS_PORT) }
    }

    /// A copy of this entry.
    pub fn duplicate(&self) -> (e: DnsEntry)
        ensures
            e == *self,
    {
        DnsEntry { name: self.name.clone(), socket_addr: self.socket_addr }
    }
}

/// The built-in public servers reached over IPv4.
pub open spec fn ipv4_dns_table() -> Seq<DnsEntryView> {
    seq![
        server("Google"@, IpAddress::V4(8, 8, 8, 8)),
        server("Google"@, IpAddress::V4(8, 8, 4, 4)),
        server("Cloudflare"@, IpAddress::V4(1, 1, 1, 1)),
        server("Cloudflare"@, IpAddress::V4(1, 0, 0, 1)),
        server("Quad9"@, IpAddress::V4(9, 9, 9, 9)),
        server("Quad9"@, IpAddress::V4(149, 112, 112, 112)),
        server("Router"@, IpAddress::V4(192, 168, 0, 1)),
        server("Control D"@, IpAddress::V4(76, 76, 2, 0)),
        server("Control D"@, IpAddress::V4(76, 76, 10, 0)),
        server("OpenDNS Home"@, IpAddress::V4(208, 67, 222, 222)),
        server("OpenDNS Home"@, IpAddress::V4(208, 67, 220, 220)),
        server("CleanBrowsing"@, IpAddress::V4(185, 228, 168, 9)),
        server("CleanBrowsing"@, IpAddress::V4(185, 228, 169, 9)),
        server("AdGuard DNS"@, IpAddress::V4(94, 140, 14, 14)),
        server("AdGuard DNS"@, IpAddress::V4(94, 140, 15, 15)),
        server("Comodo Secure DNS"@, IpAddress::V4(8, 26, 56, 26)),
        server("Comodo Secure DNS"@, IpAddress::V4(8, 20, 247, 20)),
        server("Level3"@, IpAddress::V4(209, 244, 0, 3)),
        server("Level3"@, IpAddress::V4(209, 244, 0, 4)),
        server("Verisign"@, IpAddress::V4(64, 6, 64, 6)),
        server("Verisign"@, IpAddress::V4(64, 6, 65, 6)),
        server("DNS.WATCH"@, IpAddress::V4(84, 200, 69, 80)),
        server("DNS.WATCH"@, IpAddress::V4(84, 200, 70, 40)),
        server("Norton ConnectSafe"@, IpAddress::V4(199, 85, 126, 10)),
        server("Norton ConnectSafe"@, IpAddress::V4(199, 85, 127, 10)),
        server("SafeDNS"@, IpAddress::V4(195, 46, 39, 39)),
        server("SafeDNS"@, IpAddress::V4(195, 46, 39, 40)),
        server("NextDNS"@, IpAddress::V4(45, 90, 28, 100)),
        server("NextDNS"@, IpAddress::V4(45, 90, 30, 100)),
    ]
}

/// The built-in public servers reached over IPv6.
pub open spec fn ipv6_dns_table() -> Seq<DnsEntryView> {
    seq![
        server("Google"@, IpAddress::V6(0x2001, 0x4860, 0x4860, 0, 0, 0, 0, 0x8888)),
        server("Google"@, IpAddress::V6(0x2001, 0x4860, 0x4860, 0, 0, 0, 0, 0x8844)),
        server("Cloudflare"@, IpAddress::V6(0x2606, 0x4700, 0x4700, 0, 0, 0, 0, 0x1111)),
        server("Cloudflare"@, IpAddress::V6(0x2606, 0x4700, 0x4700, 0, 0, 0, 0, 0x1001)),
        server("Quad9"@, IpAddress::V6(0x2620, 0x00fe, 0, 0, 0, 0, 0, 0x00fe)),
        server("Quad9"@, IpAddress::V6(0x2620, 0x00fe, 0, 0, 0, 0, 0, 0x0009)),
        server("Router"@, IpAddress::V6(0xfe80, 0, 0, 0, 0, 0, 0, 0x0001)),
        server("Control D"@, IpAddress::V6(0x2606, 0x1a40, 0, 0, 0, 0, 0, 0)),
        server("Control D"@, IpAddress::V6(0x2606, 0x1a40, 0x0001, 0, 0, 0, 0, 0)),
        server("OpenDNS Home"@, IpAddress::V6(0x2620, 0x0119, 0x0035, 0, 0, 0, 0, 0x0035)),
        server("OpenDNS Home"@, IpAddress::V6(0x2620, 0x0119, 0x0053, 0, 0, 0, 0, 0x0053)),
        server("CleanBrowsing"@, IpAddress::V6(0x2a0d, 0x2a00, 0x0001, 0, 0, 0, 0, 0x0002)),
        server("CleanBrowsing"@, IpAddress::V6(0x2a0d, 0x2a00, 0x0002, 0, 0, 0, 0, 0x0002)),
        server("AdGuard DNS"@, IpAddress::V6(0x2a10, 0x50c0, 0, 0, 0, 0, 0x0ad1, 0x00ff)),
        server("AdGuard DNS"@, IpAddress::V6(0x2a10, 0x50c0, 0, 0, 0, 0, 0x0ad2, 0x00ff)),
        server("Verisign"@, IpAddress::V6(0x2620, 0x0074, 0x001b, 0, 0, 0, 0x0001, 0x0001)),
        server("Verisign"@, IpAddress::V6(0x2620, 0x0074, 0x001c, 0, 0, 0, 0x0002, 0x0002)),
        server("DNS.WATCH"@, IpAddress::V6(0x2001, 0x1608, 0x0010, 0x0025, 0, 0, 0x1c04, 0xb12f)),
        server("DNS.WATCH"@, IpAddress::V6(0x2001, 0x1608, 0x0010, 0x0025, 0, 0, 0x9249, 0xd69b)),
        server("NextDNS"@, IpAddress::V6(0x2a07, 0xa8c0, 0, 0, 0, 0, 0x006e, 0x3f39)),
        server("NextDNS"@, IpAddress::V6(0x2a07, 0xa8c1, 0, 0, 0, 0, 0x006e, 0x3f39)),
    ]
}

/// The built-in public servers reached over IPv4.
pub fn ipv4_dns_entries() -> (entries: Vec<DnsEntry>)
    ensures
        entry_views(entries@) == ipv4_dns_table(),
{
    let mut entries: Vec<DnsEntry> = Vec::new();
    entries.push(DnsEntry::new("Google", IpAddress::V4(8, 8, 8, 8)));
    entries.push(DnsEntry::new("Google", IpAddress::V4(8, 8, 4, 4)));
    entries.push(DnsEntry::new("Cloudflare", IpAddress::V4(1, 1, 1, 1)));
    entries.push(DnsEntry::new("Cloudflare", IpAddress::V4(1, 0, 0, 1)));
    entries.push(DnsEntry::new("Quad9", IpAddress::V4(9, 9, 9, 9)));
    entries.push(DnsEntry::new("Quad9", IpAddress::V4(149, 112, 112, 112)));
    entries.push(DnsEntry::new("Router", IpAddress::V4(192, 168, 0, 1)));
    entries.push(DnsEntry::new("Control D", IpAddress::V4(76, 76, 2, 0)));
    entries.push(DnsEntry::new("Control D", IpAddress::V4(76, 76, 10, 0)));
    entries.push(DnsEntry::new("OpenDNS Home", IpAddress::V4(208, 67, 222, 222)));
    entries.push(DnsEntry::new("OpenDNS Home", IpAddress::V4(208, 67, 220, 220)));
    entries.push(DnsEntry::new("CleanBrowsing", IpAddress::V4(185, 228, 168, 9)));
    entries.push(DnsEntry::new("CleanBrowsing", IpAddress::V4(185, 228, 169, 9)));
    entries.push(DnsEntry::new("AdGuard DNS", IpAddress::V4(94, 140, 14, 14)));
    entries.push(DnsEntry::new("AdGuard DNS", IpAddress::V4(94, 140, 15, 15)));
    entries.push(DnsEntry::new("Comodo Secure DNS", IpAddress::V4(8, 26, 56, 26)));
    entries.push(DnsEntry::new("Comodo Secure DNS", IpAddress::V4(8, 20, 247, 20)));
    entries.push(DnsEntry::new("Level3", IpAddress::V4(209, 244, 0, 3)));
    entries.push(DnsEntry::new("Level3", IpAddress::V4(209, 244, 0, 4)));
    entries.push(DnsEntry::new("Verisign", IpAddress::V4(64, 6, 64, 6)));
    entries.push(DnsEntry::new("Verisign", IpAddress::V4(64, 6, 65, 6)));
    entries.push(DnsEntry::new("DNS.WATCH", IpAddress::V4(84, 200, 69, 80)));
    entries.push(DnsEntry::new("DNS.WATCH", IpAddress::V4(84, 200, 70, 40)));
    entries.push(DnsEntry::new("Norton ConnectSafe", IpAddress::V4(199, 85, 126, 10)));
    entries.push(DnsEntry::new("Norton ConnectSafe", IpAddress::V4(199, 85, 127, 10)));
    entries.push(DnsEntry::new("SafeDNS", IpAddress::V4(195, 46, 39, 39)));
    entries.push(DnsEntry::new("SafeDNS", IpAddress::V4(195, 46, 39, 40)));
    entries.push(DnsEntry::new("NextDNS", IpAddress::V4(45, 90, 28, 100)));
    entries.push(DnsEntry::new("NextDNS", IpAddress::V4(45, 90, 30, 100)));
    assert(entry_views(entries@) =~= ipv4_dns_table());
    entries
}

/// The built-in public servers reached over IPv6.
pub fn ipv6_dns_entries() -> (entries: Vec<DnsEntry>)
    ensures
        entry_views(entries@) == ipv6_dns_table(),
{
    let mut entries: Vec<DnsEntry> = Vec::new();
    entries.push(DnsEntry::new("Google", IpAddress::V6(0x2001, 0x4860, 0x4860, 0, 0, 0, 0, 0x8888)));
    entries.push(DnsEntry::new("Google", IpAddress::V6(0x2001, 0x4860, 0x4860, 0, 0, 0, 0, 0x8844)));
    entries.push(DnsEntry::new("Cloudflare", IpAddress::V6(0x2606, 0x4700, 0x4700, 0, 0, 0, 0, 0x1111)));
    entries.push(DnsEntry::new("Cloudflare", IpAddress::V6(0x2606, 0x4700, 0x4700, 0, 0, 0, 0, 0x1001)));
    entries.push(DnsEntry::new("Quad9", IpAddress::V6(0x2620, 0x00fe, 0, 0, 0, 0, 0, 0x00fe)));
    entries.push(DnsEntry::new("Quad9", IpAddress::V6(0x2620, 0x00fe, 0, 0, 0, 0, 0, 0x0009)));
    entries.push(DnsEntry::new("Router", IpAddress::V6(0xfe80, 0, 0, 0, 0, 0, 0, 0x0001)));
    entries.push(DnsEntry::new("Control D", IpAddress::V6(0x2606, 0x1a40, 0, 0, 0, 0, 0, 0)));
    entries.push(DnsEntry::new("Control D", IpAddress::V6(0x2606, 0x1a40, 0x0001, 0, 0, 0, 0, 0)));
    entries.push(DnsEntry::new("OpenDNS Home", IpAddress::V6(0x2620, 0x0119, 0x0035, 0, 0, 0, 0, 0x0035)));
    entries.push(DnsEntry::new("OpenDNS Home", IpAddress::V6(0x2620, 0x0119, 0x0053, 0, 0, 0, 0, 0x0053)));
    entries.push(DnsEntry::new("CleanBrowsing", IpAddress::V6(0x2a0d, 0x2a00, 0x0001, 0, 0, 0, 0, 0x0002)));
    entries.push(DnsEntry::new("CleanBrowsing", IpAddress::V6(0x2a0d, 0x2a00, 0x0002, 0, 0, 0, 0, 0x0002)));
    entries.push(DnsEntry::new("AdGuard DNS", IpAddress::V6(0x2a10, 0x50c0, 0, 0, 0, 0, 0x0ad1, 0x00ff)));
    entries.push(DnsEntry::new("AdGuard DNS", IpAddress::V6(0x2a10, 0x50c0, 0, 0, 0, 0, 0x0ad2, 0x00ff)));
    entries.push(DnsEntry::new("Verisign", IpAddress::V6(0x2620, 0x0074, 0x001b, 0, 0, 0, 0x0001, 0x0001)));
    entries.push(DnsEntry::new("Verisign", IpAddress::V6(0x2620, 0x0074, 0x001c, 0, 0, 0, 0x0002, 0x0002)));
    entries.push(DnsEntry::new("DNS.WATCH", IpAddress::V6(0x2001, 0x1608, 0x0010, 0x0025, 0, 0, 0x1c04, 0xb12f)));
    entries.push(DnsEntry::new("DNS.WATCH", IpAddress::V6(0x2001, 0x1608, 0x0010, 0x0025, 0, 0, 0x9249, 0xd69b)));
    entries.push(DnsEntry::new("NextDNS", IpAddress::V6(0x2a07, 0xa8c0, 0, 0, 0, 0, 0x006e, 0x3f39)));
    entries.push(DnsEntry::new("NextDNS", IpAddress::V6(0x2a07, 0xa8c1, 0, 0, 0, 0, 0x006e, 0x3f39)));
    assert(entry_views(entries@) =~= ipv6_dns_table());
    entries
}

} // verus!
