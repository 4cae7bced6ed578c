//! The custom list of servers: one server per line, as `name;address:port`.

use crate::args::IpAddr;
use crate::net::{IpAddress, SocketAddress};
use crate::parse::{
    lemma_socket_v4_round_trip, lemma_socket_v6_round_trip, parse_socket_v4, parse_socket_v6,
    socket_v4_of, socket_v4_text, socket_v6_of, socket_v6_text,
};
use crate::servers::{entry_views, DnsEntry, DnsEntryView};
use crate::text::{
    count, lemma_split_concat, lemma_split_len, lemma_split_one, lines, split, split_chars,
    split_lines, texts, to_chars, to_string,
};
use vstd::prelude::*;

verus! {

/// The socket address of the given IP version that `s` writes.
pub open spec fn socket_of(s: Seq<char>, version: IpAddr) -> Option<SocketAddress> {
    match version {
        IpAddr::V4 => socket_v4_of(s),
        IpAddr::V6 => socket_v6_of(s),
    }
}

/// The server that a line of the list names: the line is a name, a
/// semicolon and a socket address of the given IP version, and holds no
/// other semicolon.
pub open spec fn line_of(line: Seq<char>, version: IpAddr) -> Option<DnsEntryView> {
    let parts = split(line, ';');
    if parts.len() == 2 {
        match socket_of(parts[1], version) {
            Some(socket_addr) => Some(DnsEntryView { name: parts[0], socket_addr }),
            None => None,
        }
    } else {
        None
    }
}

/// The first of the lines that names no server, if there is one.
pub open spec fn first_invalid(ls: Seq<Seq<char>>, version: IpAddr) -> Option<int>
    decreases ls.len(),
{
    if ls.len() == 0 {
        None
    } else {
        match first_invalid(ls.drop_last(), version) {
            Some(i) => Some(i),
            None => if line_of(ls.last(), version) is None {
                Some(ls.len() - 1)
            } else {
                None
            },
        }
    }
}

/// The servers that the lines name, in order.
pub open spec fn servers_of(ls: Seq<Seq<char>>, version: IpAddr) -> Seq<DnsEntryView> {
    ls.map_values(|l: Seq<char>| line_of(l, version)->0)
}

/// A line of the list that names no server.
#[derive(Debug, Clone, Copy, PartialEq, Eq, Structural)]
pub struct InvalidLine {
    /// The number of the line, counted from zero.
    pub line: usize,
}

/// The server that the characters of a line name.
fn parse_line_chars(line: &Vec<char>, ip: IpAddr) -> (entry: Option<DnsEntry>)
    ensures
        match entry {
            Some(e) => line_of(line@, ip) == Some(e@),
            None => line_of(line@, ip) is None,
        },
{
    let parts = split_chars(line, ';');
    if parts.len() != 2 {
        return None;
    }
    assert(texts(parts@)[0] == parts@[0]@ && texts(parts@)[1] == parts@[1]@);
    let addr = match ip {
        IpAddr::V4 => parse_socket_v4(&parts[1]),
        IpAddr::V6 => parse_socket_v6(&parts[1]),
    };
    match addr {
        Some(socket_addr) => {
            let name = to_string(&parts[0], 0, parts[0].len());
            assert(name@ =~= parts@[0]@);
            Some(DnsEntry { name, socket_addr })
        },
        None => None,
    }
}

/// The name and the socket address that a line of the list gives, or
/// `None` if the line is not a name, one semicolon and a socket address of
/// the IP version `ip`.
pub fn parse_line(line: &str, ip: IpAddr) -> (parsed: Option<(String, SocketAddress)>)
    ensures
        match parsed {
            Some((name, socket_addr)) => line_of(line@, ip) == Some(
                DnsEntryView { name: name@, socket_addr },
            ),
            None => line_of(line@, ip) is None,
        },
{
    match parse_line_chars(&to_chars(line), ip) {
        Some(entry) => Some((entry.name, entry.socket_addr)),
        None => None,
    }
}

/// The servers that a custom list names, one per line. A list with a line
/// that names no server is refused as a whole, with the first such line.
pub fn read_custom_servers_list(content: &str, ip: IpAddr) -> (list: Result<
    Vec<DnsEntry>,
    InvalidLine,
>)
    ensures
        match list {
            Ok(entries) => first_invalid(lines(content@), ip) is None && entry_views(entries@)
                == servers_of(lines(content@), ip),
            Err(e) => first_invalid(lines(content@), ip) == Some(e.line as int),
        },
{
    let ls = split_lines(&to_chars(content));
    let mut entries: Vec<DnsEntry> = Vec::new();
    let mut i: usize = 0;
    while i < ls.len()
        invariant
            i <= ls.len(),
            texts(ls@) == lines(content@),
            first_invalid(texts(ls@).take(i as int), ip) is None,
            entry_views(entries@) == servers_of(texts(ls@).take(i as int), ip),
        decreases ls.len() - i,
    {
        let ghost all = texts(ls@);
        assert(all.take(i + 1).drop_last() =~= all.take(i as int));
        assert(all.take(i + 1).last() == ls@[i as int]@);
        match parse_line_chars(&ls[i], ip) {
            Some(entry) => {
                let ghost before = entry_views(entries@);
                let ghost e = entry@;
                entries.push(entry);
                assert(entry_views(entries@) =~= before.push(e));
                assert(servers_of(all.take(i + 1), ip) =~= servers_of(
                    all.take(i as int),
                    ip,
                ).push(line_of(all.take(i + 1)[i as int], ip)->0));
            },
            None => {
                proof {
                    lemma_first_invalid_stays(all, ip, i + 1);
                }
                return Err(InvalidLine { line: i });
            },
        }
        i += 1;
    }
    assert(texts(ls@).take(i as int) =~= texts(ls@));
    Ok(entries)
}

/// The first invalid line among the first `k` lines is the first invalid
/// line of all.
proof fn lemma_first_invalid_stays(ls: Seq<Seq<char>>, version: IpAddr, k: int)
    requires
        0 <= k <= ls.len(),
        first_invalid(ls.take(k), version) is Some,
    ensures
        first_invalid(ls, version) == first_invalid(ls.take(k), version),
    decreases ls.len(),
{
    if k == ls.len() {
        assert(ls.take(k) =~= ls);
    } else {
        assert(ls.drop_last().take(k) =~= ls.take(k));
        lemma_first_invalid_stays(ls.drop_last(), version, k);
    }
}

/// A line names a server only if it holds exactly one semicolon: a line
/// with none, or with two or more, names none.
pub proof fn lemma_line_wants_one_semicolon(line: Seq<char>, version: IpAddr)
    ensures
        count(line, ';') != 1 ==> line_of(line, version) is None,
        line_of(line, version) matches Some(entry) ==> socket_of(
            split(line, ';')[1],
            version,
        ) == Some(entry.socket_addr) && entry.name == split(line, ';')[0],
{
    lemma_split_len(line, ';');
}

/// A server written as its name, a semicolon and its IPv4 socket address
/// in decimal is read back as that server, whatever the name, so long as
/// the name holds no semicolon.
pub proof fn lemma_line_round_trip(name: Seq<char>, a: u8, b: u8, c: u8, d: u8, port: u16)
    requires
        forall|i: int| 0 <= i < name.len() ==> name[i] != ';',
    ensures
        line_of(name + seq![';'] + socket_v4_text(a, b, c, d, port), IpAddr::V4) == Some(
            DnsEntryView {
                name,
                socket_addr: SocketAddress { ip: IpAddress::V4(a, b, c, d), port, scope_id: 0 },
            },
        ),
{
    let addr = socket_v4_text(a, b, c, d, port);
    lemma_socket_v4_round_trip(a, b, c, d, port);
    lemma_split_one(name, ';');
    lemma_split_one(addr, ';');
    lemma_split_concat(name, addr, ';');
    assert(split(name + seq![';'] + addr, ';') =~= seq![name, addr]);
}

/// The same for a server with an IPv6 socket address, written as eight
/// groups in hexadecimal inside square brackets and a port in decimal.
pub proof fn lemma_line_round_trip_v6(name: Seq<char>, groups: Seq<u16>, port: u16)
    requires
        groups.len() == 8,
        forall|i: int| 0 <= i < name.len() ==> name[i] != ';',
    ensures
        line_of(name + seq![';'] + socket_v6_text(groups, port), IpAddr::V6) == Some(
            DnsEntryView {
                name,
                socket_addr: SocketAddress {
                    ip: IpAddress::V6(
                        groups[0],
                        groups[1],
                        groups[2],
                        groups[3],
                        groups[4],
                        groups[5],
                        groups[6],
                        groups[7],
                    ),
                    port,
                    scope_id: 0,
                },
            },
        ),
{
    let addr = socket_v6_text(groups, port);
    lemma_socket_v6_round_trip(groups, port);
    lemma_split_one(name, ';');
    lemma_split_one(addr, ';');
    lemma_split_concat(name, addr, ';');
    assert(split(name + seq![';'] + addr, ';') =~= seq![name, addr]);
}

} // verus!
