//! The DNS servers that the operating system is set up with, read from
//! what the system says about itself.

use crate::net::IpAddress;
use crate::parse::{ip_of, parse_ip, subvec};
use crate::text::{
    contains, contains_chars, lines, split, split_chars, split_lines, split_words, starts_with,
    starts_with_str, texts, to_chars, trim, trim_chars, words,
};
use vstd::prelude::*;

verus! {

/// Where a list of name servers comes from.
#[derive(Clone, Copy, Debug, PartialEq, Eq, Structural)]
pub enum ResolverListing {
    /// The file `resolv.conf`: lines of the form `nameserver 8.8.8.8`.
    ResolvConf,
    /// What `scutil --dns` prints: lines of the form `nameserver[0] : 8.8.8.8`.
    Scutil,
}

/// The name server that a line of `resolv.conf` names: the line, white
/// space at its ends aside, is `nameserver`, one space and an address.
pub open spec fn resolv_conf_line(line: Seq<char>) -> Option<IpAddress> {
    let l = trim(line);
    if starts_with(l, "nameserver "@) {
        ip_of(l.subrange("nameserver "@.len() as int, l.len() as int))
    } else {
        None
    }
}

/// The name server that a line of `scutil --dns` names: the line, white
/// space at its ends aside, begins with `nameserver[`, and its third word
/// is an address.
pub open spec fn scutil_line(line: Seq<char>) -> Option<IpAddress> {
    let l = trim(line);
    if starts_with(l, "nameserver["@) && words(l).len() > 2 {
        ip_of(words(l)[2])
    } else {
        None
    }
}

/// The name server that a line of the listing names, if it names one.
pub open spec fn listed_server(listing: ResolverListing, line: Seq<char>) -> Option<IpAddress> {
    match listing {
        ResolverListing::ResolvConf => resolv_conf_line(line),
        ResolverListing::Scutil => scutil_line(line),
    }
}

/// The name servers that the lines of a listing name, in order.
pub open spec fn listed_servers(listing: ResolverListing, ls: Seq<Seq<char>>) -> Seq<IpAddress>
    decreases ls.len(),
{
    if ls.len() == 0 {
        Seq::empty()
    } else {
        match listed_server(listing, ls.last()) {
            Some(ip) => listed_servers(listing, ls.drop_last()).push(ip),
            None => listed_servers(listing, ls.drop_last()),
        }
    }
}

/// The name server that a line of `ipconfig /all` names. A line that
/// holds `DNS` names the address between its first and its second colon.
/// Any other line that is not blank names the address that it is, but
/// only after a name server has been found.
pub open spec fn ipconfig_line(line: Seq<char>, found_any: bool) -> Option<IpAddress> {
    let l = trim(line);
    if contains(l, "DNS"@) {
        if split(l, ':').len() > 1 {
            ip_of(trim(split(l, ':')[1]))
        } else {
            None
        }
    } else if found_any && l.len() > 0 {
        ip_of(l)
    } else {
        None
    }
}

/// The name servers that the lines of `ipconfig /all` name, in order.
pub open spec fn ipconfig_servers(ls: Seq<Seq<char>>) -> Seq<IpAddress>
    decreases ls.len(),
{
    if ls.len() == 0 {
        Seq::empty()
    } else {
        let before = ipconfig_servers(ls.drop_last());
        match ipconfig_line(ls.last(), before.len() > 0) {
            Some(ip) => before.push(ip),
            None => before,
        }
    }
}

/// The name server that a line of the listing names.
fn parse_listed_server(listing: ResolverListing, line: &Vec<char>) -> (ip: Option<IpAddress>)
    ensures
        ip == listed_server(listing, line@),
{
    let l = trim_chars(line);
    match listing {
        ResolverListing::ResolvConf => {
            if starts_with_str(&l, "nameserver ") {
                let skip = to_chars("nameserver ").len();
                parse_ip(&subvec(&l, skip, l.len()))
            } else {
                None
            }
        },
        ResolverListing::Scutil => {
            if starts_with_str(&l, "nameserver[") {
                let ws = split_words(&l);
                if ws.len() > 2 {
                    assert(texts(ws@)[2] == ws@[2]@);
                    parse_ip(&ws[2])
                } else {
                    None
                }
            } else {
                None
            }
        },
    }
}

/// The name servers that a listing names, in order.
pub fn parse_listing(listing: ResolverListing, text: &str) -> (servers: Vec<IpAddress>)
    ensures
        servers@ == listed_servers(listing, lines(text@)),
{
    let ls = split_lines(&to_chars(text));
    let mut servers: Vec<IpAddress> = Vec::new();
    let mut i: usize = 0;
    while i < ls.len()
        invariant
            i <= ls.len(),
            servers@ == listed_servers(listing, texts(ls@).take(i as int)),
        decreases ls.len() - i,
    {
        assert(texts(ls@).take(i + 1).drop_last() =~= texts(ls@).take(i as int));
        assert(texts(ls@).take(i + 1).last() == ls@[i as int]@);
        if let Some(ip) = parse_listed_server(listing, &ls[i]) {
            servers.push(ip);
        }
        i += 1;
    }
    assert(texts(ls@).take(i as int) =~= texts(ls@));
    servers
}

/// The name servers that the content of `resolv.conf` names, in order.
pub fn parse_resolv_conf_content(content: &str) -> (servers: Vec<IpAddress>)
    ensures
        servers@ == listed_servers(ResolverListing::ResolvConf, lines(content@)),
{
    parse_listing(ResolverListing::ResolvConf, content)
}

/// The name servers that the output of `scutil --dns` names, in order.
pub fn parse_scutil_output(text: &str) -> (servers: Vec<IpAddress>)
    ensures
        servers@ == listed_servers(ResolverListing::Scutil, lines(text@)),
{
    parse_listing(ResolverListing::Scutil, text)
}

/// The name servers that the output of `ipconfig /all` names, in order.
pub fn parse_ipconfig_output(text: &str) -> (servers: Vec<IpAddress>)
    ensures
        servers@ == ipconfig_servers(lines(text@)),
{
    let ls = split_lines(&to_chars(text));
    let dns = to_chars("DNS");
    let mut servers: Vec<IpAddress> = Vec::new();
    let mut i: usize = 0;
    while i < ls.len()
        invariant
            i <= ls.len(),
            dns@ == "DNS"@,
            servers@ == ipconfig_servers(texts(ls@).take(i as int)),
        decreases ls.len() - i,
    {
        assert(texts(ls@).take(i + 1).drop_last() =~= texts(ls@).take(i as int));
        assert(texts(ls@).take(i + 1).last() == ls@[i as int]@);
        let l = trim_chars(&ls[i]);
        if contains_chars(&l, &dns) {
            let parts = split_chars(&l, ':');
            if parts.len() > 1 {
                assert(texts(parts@)[1] == parts@[1]@);
                if let Some(ip) = parse_ip(&trim_chars(&parts[1])) {
                    servers.push(ip);
                }
            }
        } else if servers.len() > 0 && l.len() > 0 {
            if let Some(ip) = parse_ip(&l) {
                servers.push(ip);
            }
        }
        i += 1;
    }
    assert(texts(ls@).take(i as int) =~= texts(ls@));
    servers
}

/// No DNS server was found.
#[derive(Clone, Copy, Debug, PartialEq, Eq, Structural)]
pub struct NoDnsServers;

/// The first of the servers, and the second if there is one; an error
/// where there is none.
pub open spec fn primary_and_secondary(servers: Seq<IpAddress>) -> Result<
    (IpAddress, Option<IpAddress>),
    NoDnsServers,
> {
    if servers.len() == 0 {
        Err(NoDnsServers)
    } else if servers.len() == 1 {
        Ok((servers[0], None))
    } else {
        Ok((servers[0], Some(servers[1])))
    }
}

/// The first of the servers, and the second if there is one.
pub fn select_primary_and_secondary(servers: Vec<IpAddress>) -> (selected: Result<
    (IpAddress, Option<IpAddress>),
    NoDnsServers,
>)
    ensures
        selected == primary_and_secondary(servers@),
{
    if servers.len() == 0 {
        Err(NoDnsServers)
    } else {
        let second = if servers.len() > 1 {
            Some(servers[1])
        } else {
            None
        };
        Ok((servers[0], second))
    }
}

} // verus!
