//! The address of the default gateway, read from what the system says
//! about its routes.

use crate::net::IpAddress;
use crate::parse::{digit_of, ip_of, number_of, parse_ip, parse_number, subvec};
use crate::text::{
    ascii_lowercase, chars_eq_str, contains, contains_chars, lines, split_lines, split_words,
    starts_with, starts_with_str, texts, to_ascii_lowercase, to_chars, trim, trim_chars, words,
};
use vstd::prelude::*;

verus! {

/// Why no gateway was read.
#[derive(Clone, Copy, Debug, PartialEq, Eq, Structural)]
pub enum GatewayError {
    /// The default route names a gateway that is no address.
    InvalidData,
    /// There is no default route with a gateway.
    NotFound,
}

/// A listing of routes in which a line as a whole names the gateway.
#[derive(Clone, Copy, Debug, PartialEq, Eq, Structural)]
pub enum RouteListing {
    /// What `ip route show default` prints: `default via 192.168.0.1 dev eth0`.
    IpRoute,
    /// What `route -n get default` prints: a line `gateway: 192.168.0.1`.
    RouteGet,
    /// What `netstat -rn` prints: a line `default 192.168.0.1 UGSc en0`.
    NetstatRn,
}

/// The first address that follows the word `via`, among the words from
/// `from` on.
pub open spec fn first_via(ws: Seq<Seq<char>>, from: int) -> Option<IpAddress>
    decreases ws.len() - from,
{
    if from < 0 || from + 1 >= ws.len() {
        None
    } else if ws[from] == "via"@ && ip_of(ws[from + 1]) is Some {
        ip_of(ws[from + 1])
    } else {
        first_via(ws, from + 1)
    }
}

/// The gateway that a line of `ip route show default` names: the line has
/// three words or more, the first is `default`, and an address follows a `via`.
pub open spec fn ip_route_line(line: Seq<char>) -> Option<IpAddress> {
    if words(line).len() >= 3 && words(line)[0] == "default"@ {
        first_via(words(line), 0)
    } else {
        None
    }
}

/// The gateway that a line of `route -n get default` names: the line,
/// white space at its ends aside, begins with `gateway:`, and its second
/// word is an address.
pub open spec fn route_get_line(line: Seq<char>) -> Option<IpAddress> {
    let l = trim(line);
    if starts_with(l, "gateway:"@) && words(l).len() >= 2 {
        ip_of(words(l)[1])
    } else {
        None
    }
}

/// The gateway that a line of `netstat -rn` names: the line, white space
/// at its ends aside, begins with `default` and a space or a tab, and its
/// second word is an address.
pub open spec fn netstat_line(line: Seq<char>) -> Option<IpAddress> {
    let l = trim(line);
    if (starts_with(l, "default "@) || starts_with(l, "default\t"@)) && words(l).len() >= 2 {
        ip_of(words(l)[1])
    } else {
        None
    }
}

/// The gateway that a line of the listing names, if it names one.
pub open spec fn gateway_in_line(listing: RouteListing, line: Seq<char>) -> Option<IpAddress> {
    match listing {
        RouteListing::IpRoute => ip_route_line(line),
        RouteListing::RouteGet => route_get_line(line),
        RouteListing::NetstatRn => netstat_line(line),
    }
}

/// The gateway that the first of the lines to name one names.
pub open spec fn first_gateway(listing: RouteListing, ls: Seq<Seq<char>>) -> Option<IpAddress>
    decreases ls.len(),
{
    if ls.len() == 0 {
        None
    } else {
        match gateway_in_line(listing, ls.first()) {
            Some(ip) => Some(ip),
            None => first_gateway(listing, ls.drop_first()),
        }
    }
}

/// The gateway if one was found, else the error that none was.
pub open spec fn found_or_not(gateway: Option<IpAddress>) -> Result<IpAddress, GatewayError> {
    match gateway {
        Some(ip) => Ok(ip),
        None => Err(GatewayError::NotFound),
    }
}

/// The byte that two characters write in hexadecimal: two digits, or a
/// plus sign and one digit.
pub open spec fn hex_byte_of(s: Seq<char>) -> Option<nat> {
    if s.len() == 2 && s[0] == '+' {
        digit_of(s[1], 16)
    } else if s.len() == 2 {
        number_of(s, 16)
    } else {
        None
    }
}

/// The address that the kernel's table of routes writes as eight
/// hexadecimal digits: four bytes, the last byte of the address first.
pub open spec fn route_gateway_of(hex: Seq<char>) -> Option<IpAddress> {
    if hex.len() == 8 && hex_byte_of(hex.subrange(0, 2)) is Some && hex_byte_of(
        hex.subrange(2, 4),
    ) is Some && hex_byte_of(hex.subrange(4, 6)) is Some && hex_byte_of(hex.subrange(6, 8)) is Some {
        Some(
            IpAddress::V4(
                hex_byte_of(hex.subrange(6, 8))->0 as u8,
                hex_byte_of(hex.subrange(4, 6))->0 as u8,
                hex_byte_of(hex.subrange(2, 4))->0 as u8,
                hex_byte_of(hex.subrange(0, 2))->0 as u8,
            ),
        )
    } else {
        None
    }
}

/// What a line of the kernel's table of routes says of the gateway: a
/// line of three words or more whose second word is `00000000` is the
/// default route, and its third word is the gateway.
pub open spec fn proc_route_line(line: Seq<char>) -> Option<Result<IpAddress, GatewayError>> {
    if words(line).len() >= 3 && words(line)[1] == "00000000"@ {
        Some(
            match route_gateway_of(words(line)[2]) {
                Some(ip) => Ok(ip),
                None => Err(GatewayError::InvalidData),
            },
        )
    } else {
        None
    }
}

/// The lines after the first, which is the heading.
pub open spec fn after_heading(ls: Seq<Seq<char>>) -> Seq<Seq<char>> {
    if ls.len() == 0 {
        ls
    } else {
        ls.drop_first()
    }
}

/// What the first default route among the lines says of the gateway.
pub open spec fn proc_route_gateway(ls: Seq<Seq<char>>) -> Result<IpAddress, GatewayError>
    decreases ls.len(),
{
    if ls.len() == 0 {
        Err(GatewayError::NotFound)
    } else {
        match proc_route_line(ls.first()) {
            Some(r) => r,
            None => proc_route_gateway(ls.drop_first()),
        }
    }
}

/// The gateway that the lines of `route PRINT` name. Blank lines do not
/// count. A line that holds `ipv4`, letter case aside, opens the table of
/// IPv4 routes. After it, the first line of three words or more that
/// begins with `0.0.0.0 0.0.0.0` and whose third word is an address names
/// the gateway.
pub open spec fn route_print_gateway(ls: Seq<Seq<char>>, in_ipv4_section: bool) -> Option<
    IpAddress,
>
    decreases ls.len(),
{
    if ls.len() == 0 {
        None
    } else {
        let l = trim(ls.first());
        if l.len() == 0 {
            route_print_gateway(ls.drop_first(), in_ipv4_section)
        } else if contains(ascii_lowercase(l), "ipv4"@) {
            route_print_gateway(ls.drop_first(), true)
        } else if in_ipv4_section && words(l).len() >= 3 && words(l)[0] == "0.0.0.0"@ && words(
            l,
        )[1] == "0.0.0.0"@ && ip_of(words(l)[2]) is Some {
            ip_of(words(l)[2])
        } else {
            route_print_gateway(ls.drop_first(), in_ipv4_section)
        }
    }
}

/// The first address that follows the word `via`.
fn find_via(ws: &Vec<Vec<char>>) -> (ip: Option<IpAddress>)
    ensures
        ip == first_via(texts(ws@), 0),
{
    if ws.len() == 0 {
        return None;
    }
    let mut i: usize = 0;
    while i < ws.len() - 1
        invariant
            i + 1 <= ws.len(),
            first_via(texts(ws@), 0) == first_via(texts(ws@), i as int),
        decreases ws.len() - i,
    {
        assert(texts(ws@)[i as int] == ws@[i as int]@);
        assert(texts(ws@)[i + 1] == ws@[i + 1]@);
        if chars_eq_str(&ws[i], "via") {
            if let Some(ip) = parse_ip(&ws[i + 1]) {
                return Some(ip);
            }
        }
        i += 1;
    }
    None
}

/// The gateway that a line of the listing names.
fn parse_gateway_line(listing: RouteListing, line: &Vec<char>) -> (ip: Option<IpAddress>)
    ensures
        ip == gateway_in_line(listing, line@),
{
    match listing {
        RouteListing::IpRoute => {
            let ws = split_words(line);
            if ws.len() >= 3 {
                assert(texts(ws@)[0] == ws@[0]@);
                if chars_eq_str(&ws[0], "default") {
                    find_via(&ws)
                } else {
                    None
                }
            } else {
                None
            }
        },
        RouteListing::RouteGet => {
            let l = trim_chars(line);
            if starts_with_str(&l, "gateway:") {
                let ws = split_words(&l);
                if ws.len() >= 2 {
                    assert(texts(ws@)[1] == ws@[1]@);
                    parse_ip(&ws[1])
                } else {
                    None
                }
            } else {
                None
            }
        },
        RouteListing::NetstatRn => {
            let l = trim_chars(line);
            if starts_with_str(&l, "default ") || starts_with_str(&l, "default\t") {
                let ws = split_words(&l);
                if ws.len() >= 2 {
                    assert(texts(ws@)[1] == ws@[1]@);
                    parse_ip(&ws[1])
                } else {
                    None
                }
            } else {
                None
            }
        },
    }
}

/// The gateway that a listing of routes names: the one that the first
/// line to name one names.
pub fn parse_route_listing(listing: RouteListing, text: &str) -> (gateway: Result<
    IpAddress,
    GatewayError,
>)
    ensures
        gateway == found_or_not(first_gateway(listing, lines(text@))),
{
    let ls = split_lines(&to_chars(text));
    let mut i: usize = 0;
    assert(texts(ls@).skip(0) =~= texts(ls@));
    while i < ls.len()
        invariant
            i <= ls.len(),
            texts(ls@) == lines(text@),
            first_gateway(listing, texts(ls@)) == first_gateway(listing, texts(ls@).skip(i as int)),
        decreases ls.len() - i,
    {
        assert(texts(ls@).skip(i as int).first() == ls@[i as int]@);
        assert(texts(ls@).skip(i as int).drop_first() =~= texts(ls@).skip(i + 1));
        if let Some(ip) = parse_gateway_line(listing, &ls[i]) {
            return Ok(ip);
        }
        i += 1;
    }
    Err(GatewayError::NotFound)
}

/// The gateway that the output of `ip route show default` names.
pub fn parse_ip_route_default_output(text: &str) -> (gateway: Result<IpAddress, GatewayError>)
    ensures
        gateway == found_or_not(first_gateway(RouteListing::IpRoute, lines(text@))),
{
    parse_route_listing(RouteListing::IpRoute, text)
}

/// The gateway that the output of `route -n get default` names.
pub fn parse_route_get_default_output(text: &str) -> (gateway: Result<IpAddress, GatewayError>)
    ensures
        gateway == found_or_not(first_gateway(RouteListing::RouteGet, lines(text@))),
{
    parse_route_listing(RouteListing::RouteGet, text)
}

/// The gateway that the output of `netstat -rn` names.
pub fn parse_netstat_rn_output(text: &str) -> (gateway: Result<IpAddress, GatewayError>)
    ensures
        gateway == found_or_not(first_gateway(RouteListing::NetstatRn, lines(text@))),
{
    parse_route_listing(RouteListing::NetstatRn, text)
}

/// The byte that the two characters `hex[at..at + 2]` write.
fn parse_hex_byte(hex: &Vec<char>, at: usize) -> (byte: Option<u8>)
    requires
        at + 2 <= hex.len(),
    ensures
        byte is Some == hex_byte_of(hex@.subrange(at as int, at + 2)) is Some,
        byte matches Some(b) ==> b == hex_byte_of(hex@.subrange(at as int, at + 2))->0,
{
    let pair = subvec(hex, at, at + 2);
    proof {
        reveal_with_fuel(number_of, 3);
        assert(pair@.drop_last().len() == 1);
    }
    if pair[0] == '+' {
        let one = subvec(&pair, 1, 2);
        assert(one@.len() == 1 && one@.last() == pair@[1]);
        match parse_number(&one, true, 255) {
            Some(v) => Some(v as u8),
            None => None,
        }
    } else {
        match parse_number(&pair, true, 255) {
            Some(v) => Some(v as u8),
            None => None,
        }
    }
}

/// The address that eight hexadecimal digits of the kernel's table of
/// routes write.
fn parse_route_gateway(hex: &Vec<char>) -> (ip: Option<IpAddress>)
    ensures
        ip == route_gateway_of(hex@),
{
    if hex.len() != 8 {
        return None;
    }
    let b0 = match parse_hex_byte(hex, 0) {
        Some(b) => b,
        None => {
            return None;
        },
    };
    let b1 = match parse_hex_byte(hex, 2) {
        Some(b) => b,
        None => {
            return None;
        },
    };
    let b2 = match parse_hex_byte(hex, 4) {
        Some(b) => b,
        None => {
            return None;
        },
    };
    let b3 = match parse_hex_byte(hex, 6) {
        Some(b) => b,
        None => {
            return None;
        },
    };
    Some(IpAddress::V4(b3, b2, b1, b0))
}

/// The gateway of the default route in the kernel's table of routes. The
/// first line is the heading and is not looked at.
pub fn parse_proc_net_route_content(content: &str) -> (gateway: Result<IpAddress, GatewayError>)
    ensures
        gateway == proc_route_gateway(after_heading(lines(content@))),
{
    let ls = split_lines(&to_chars(content));
    if ls.len() == 0 {
        return Err(GatewayError::NotFound);
    }
    let mut i: usize = 1;
    assert(texts(ls@).skip(1) =~= texts(ls@).drop_first());
    while i < ls.len()
        invariant
            1 <= i <= ls.len(),
            texts(ls@) == lines(content@),
            proc_route_gateway(after_heading(texts(ls@))) == proc_route_gateway(
                texts(ls@).skip(i as int),
            ),
        decreases ls.len() - i,
    {
        assert(texts(ls@).skip(i as int).first() == ls@[i as int]@);
        assert(texts(ls@).skip(i as int).drop_first() =~= texts(ls@).skip(i + 1));
        let cols = split_words(&ls[i]);
        if cols.len() >= 3 {
            assert(texts(cols@)[1] == cols@[1]@);
            assert(texts(cols@)[2] == cols@[2]@);
            if chars_eq_str(&cols[1], "00000000") {
                return match parse_route_gateway(&cols[2]) {
                    Some(ip) => Ok(ip),
                    None => Err(GatewayError::InvalidData),
                };
            }
        }
        i += 1;
    }
    Err(GatewayError::NotFound)
}

/// The gateway that the output of `route PRINT` names.
pub fn parse_route_print_output(text: &str) -> (gateway: Result<IpAddress, GatewayError>)
    ensures
        gateway == found_or_not(route_print_gateway(lines(text@), false)),
{
    let ls = split_lines(&to_chars(text));
    let ipv4 = to_chars("ipv4");
    let mut in_ipv4_section = false;
    let mut i: usize = 0;
    assert(texts(ls@).skip(0) =~= texts(ls@));
    while i < ls.len()
        invariant
            i <= ls.len(),
            ipv4@ == "ipv4"@,
            texts(ls@) == lines(text@),
            route_print_gateway(texts(ls@), false) == route_print_gateway(
                texts(ls@).skip(i as int),
                in_ipv4_section,
            ),
        decreases ls.len() - i,
    {
        assert(texts(ls@).skip(i as int).first() == ls@[i as int]@);
        assert(texts(ls@).skip(i as int).drop_first() =~= texts(ls@).skip(i + 1));
        let l = trim_chars(&ls[i]);
        if l.len() == 0 {
        } else if contains_chars(&to_ascii_lowercase(&l), &ipv4) {
            in_ipv4_section = true;
        } else if in_ipv4_section {
            let cols = split_words(&l);
            if cols.len() >= 3 {
                assert(texts(cols@)[0] == cols@[0]@);
                assert(texts(cols@)[1] == cols@[1]@);
                assert(texts(cols@)[2] == cols@[2]@);
                if chars_eq_str(&cols[0], "0.0.0.0") && chars_eq_str(&cols[1], "0.0.0.0") {
                    if let Some(ip) = parse_ip(&cols[2]) {
                        return Ok(ip);
                    }
                }
            }
        }
        i += 1;
    }
    Err(GatewayError::NotFound)
}

} // verus!
