//! Addresses as text: `8.8.8.8`, `2001:db8::1`, `8.8.8.8:53`, `[2001:db8::1]:53`.

use crate::net::{IpAddress, SocketAddress};
use crate::text::{
    decimal, digit_char, join, lemma_split_concat, lemma_split_of_join, lemma_split_one, split,
    split_chars, texts, to_chars,
};
use vstd::prelude::*;

verus! {

/// The value of `c` as a digit in base `radix` (ten or sixteen), if it is one.
pub open spec fn digit_of(c: char, radix: nat) -> Option<nat> {
    if '0' <= c <= '9' {
        Some((c as nat - '0' as nat) as nat)
    } else if radix == 16 && 'a' <= c <= 'f' {
        Some((c as nat - 'a' as nat + 10) as nat)
    } else if radix == 16 && 'A' <= c <= 'F' {
        Some((c as nat - 'A' as nat + 10) as nat)
    } else {
        None
    }
}

/// The number that `s` writes in base `radix`, if `s` is one digit or more
/// and nothing else.
pub open spec fn number_of(s: Seq<char>, radix: nat) -> Option<nat>
    decreases s.len(),
{
    if s.len() == 0 {
        None
    } else {
        match digit_of(s.last(), radix) {
            None => None,
            Some(d) => if s.len() == 1 {
                Some(d)
            } else {
                match number_of(s.drop_last(), radix) {
                    Some(n) => Some(n * radix + d),
                    None => None,
                }
            },
        }
    }
}

/// The number that `s` writes in base `radix`, if it is at most `limit`.
pub open spec fn number_up_to(s: Seq<char>, radix: nat, limit: nat) -> Option<nat> {
    match number_of(s, radix) {
        Some(n) => if n <= limit {
            Some(n)
        } else {
            None
        },
        None => None,
    }
}

/// One part of a dotted IPv4 address: a decimal number up to 255 in one to
/// three digits, with no zero before another digit.
pub open spec fn octet_of(s: Seq<char>) -> Option<nat> {
    if s.len() <= 3 && (s.len() <= 1 || s[0] != '0') {
        number_up_to(s, 10, 255)
    } else {
        None
    }
}

/// One group of an IPv6 address: a hexadecimal number in one to four digits.
pub open spec fn group_of(s: Seq<char>) -> Option<nat> {
    if s.len() <= 4 {
        number_of(s, 16)
    } else {
        None
    }
}

/// A port: a decimal number up to 65535, in any number of digits.
pub open spec fn port_of(s: Seq<char>) -> Option<nat> {
    number_up_to(s, 10, u16::MAX as nat)
}

/// The number of a zone: a decimal number that fits in 32 bits, in any
/// number of digits.
pub open spec fn scope_of(s: Seq<char>) -> Option<nat> {
    number_up_to(s, 10, u32::MAX as nat)
}

/// The IPv4 address that `s` writes: four octets with a point between each two.
pub open spec fn ipv4_of(s: Seq<char>) -> Option<IpAddress> {
    let parts = split(s, '.');
    if parts.len() == 4 && octet_of(parts[0]) is Some && octet_of(parts[1]) is Some && octet_of(
        parts[2],
    ) is Some && octet_of(parts[3]) is Some {
        Some(
            IpAddress::V4(
                octet_of(parts[0])->0 as u8,
                octet_of(parts[1])->0 as u8,
                octet_of(parts[2])->0 as u8,
                octet_of(parts[3])->0 as u8,
            ),
        )
    } else {
        None
    }
}

/// The groups that the first `count` parts write, if each writes one.
pub open spec fn hex_groups(parts: Seq<Seq<char>>, count: int) -> Option<Seq<u16>>
    decreases count,
{
    if count <= 0 {
        Some(Seq::empty())
    } else {
        match (hex_groups(parts, count - 1), group_of(parts[count - 1])) {
            (Some(groups), Some(g)) => Some(groups.push(g as u16)),
            _ => None,
        }
    }
}

/// The 16-bit groups that `s` writes: nothing, or hexadecimal groups with
/// a colon between each two, the last two of which may be written as one
/// IPv4 address where `v4_tail` allows it.
pub open spec fn groups_of(s: Seq<char>, v4_tail: bool) -> Option<Seq<u16>> {
    let parts = split(s, ':');
    if s.len() == 0 {
        Some(Seq::empty())
    } else if hex_groups(parts, parts.len() as int) is Some {
        hex_groups(parts, parts.len() as int)
    } else if v4_tail {
        match (hex_groups(parts, parts.len() - 1), ipv4_of(parts.last())) {
            (Some(groups), Some(IpAddress::V4(a, b, c, d))) => Some(
                groups.push((a * 256 + b) as u16).push((c * 256 + d) as u16),
            ),
            _ => None,
        }
    } else {
        None
    }
}

/// Where two colons in a row first stand in `s`, from `from` on.
pub open spec fn double_colon(s: Seq<char>, from: int) -> Option<int>
    decreases s.len() - from,
{
    if from < 0 || from + 2 > s.len() {
        None
    } else if s[from] == ':' && s[from + 1] == ':' {
        Some(from)
    } else {
        double_colon(s, from + 1)
    }
}

/// The IPv6 address with the groups `head` at its start, the groups
/// `tail` at its end and zeros between.
pub open spec fn v6_from(head: Seq<u16>, tail: Seq<u16>) -> IpAddress {
    let g = head + Seq::new((8 - head.len() - tail.len()) as nat, |i: int| 0u16) + tail;
    IpAddress::V6(g[0], g[1], g[2], g[3], g[4], g[5], g[6], g[7])
}

/// The IPv6 address that `s` writes: eight groups, or fewer with two
/// colons in a row where one or more groups of zeros are left out. The
/// last two groups may be written as an IPv4 address, but not before the
/// two colons.
pub open spec fn ipv6_of(s: Seq<char>) -> Option<IpAddress> {
    match double_colon(s, 0) {
        None => match groups_of(s, true) {
            Some(groups) => if groups.len() == 8 {
                Some(v6_from(groups, Seq::empty()))
            } else {
                None
            },
            None => None,
        },
        Some(at) => match (
            groups_of(s.subrange(0, at), false),
            groups_of(s.subrange(at + 2, s.len() as int), true),
        ) {
            (Some(head), Some(tail)) => if head.len() + tail.len() <= 7 {
                Some(v6_from(head, tail))
            } else {
                None
            },
            _ => None,
        },
    }
}

/// The address that `s` writes, of either IP version.
pub open spec fn ip_of(s: Seq<char>) -> Option<IpAddress> {
    match ipv4_of(s) {
        Some(ip) => Some(ip),
        None => ipv6_of(s),
    }
}

/// Where `c` first stands in `s`, from `from` on.
pub open spec fn position_of(s: Seq<char>, c: char, from: int) -> Option<int>
    decreases s.len() - from,
{
    if from < 0 || from >= s.len() {
        None
    } else if s[from] == c {
        Some(from)
    } else {
        position_of(s, c, from + 1)
    }
}

/// The IPv4 socket address that `s` writes: an IPv4 address, a colon and a port.
pub open spec fn socket_v4_of(s: Seq<char>) -> Option<SocketAddress> {
    let parts = split(s, ':');
    if parts.len() == 2 {
        match (ipv4_of(parts[0]), port_of(parts[1])) {
            (Some(ip), Some(port)) => Some(SocketAddress { ip, port: port as u16, scope_id: 0 }),
            _ => None,
        }
    } else {
        None
    }
}

/// The address and the zone that the inside of the brackets writes: an
/// IPv6 address, and after a percent sign the number of its zone if it has
/// one.
pub open spec fn scoped_v6_of(s: Seq<char>) -> Option<(IpAddress, nat)> {
    match position_of(s, '%', 0) {
        None => match ipv6_of(s) {
            Some(ip) => Some((ip, 0nat)),
            None => None,
        },
        Some(at) => match (ipv6_of(s.subrange(0, at)), scope_of(s.subrange(at + 1, s.len() as int))) {
            (Some(ip), Some(scope)) => Some((ip, scope)),
            _ => None,
        },
    }
}

/// The IPv6 socket address that `s` writes: in square brackets an IPv6
/// address with or without a zone, then a colon and a port.
pub open spec fn socket_v6_of(s: Seq<char>) -> Option<SocketAddress> {
    if s.len() > 0 && s[0] == '[' {
        match position_of(s, ']', 0) {
            Some(close) => if close + 1 < s.len() && s[close + 1] == ':' {
                match (
                    scoped_v6_of(s.subrange(1, close)),
                    port_of(s.subrange(close + 2, s.len() as int)),
                ) {
                    (Some((ip, scope)), Some(port)) => Some(
                        SocketAddress { ip, port: port as u16, scope_id: scope as u32 },
                    ),
                    _ => None,
                }
            } else {
                None
            },
            None => None,
        }
    } else {
        None
    }
}

/// A number cannot be read from text that holds something else than
/// digits, and the number of a text is at least that of each of its
/// beginnings.
proof fn lemma_number_prefix(s: Seq<char>, radix: nat, k: int)
    requires
        1 <= k <= s.len(),
        radix == 10 || radix == 16,
    ensures
        number_of(s.take(k), radix) is None ==> number_of(s, radix) is None,
        number_of(s, radix) is Some ==> number_of(s.take(k), radix)->0 <= number_of(s, radix)->0,
    decreases s.len(),
{
    if k == s.len() {
        assert(s.take(k) =~= s);
    } else {
        assert(s.drop_last().take(k) =~= s.take(k));
        lemma_number_prefix(s.drop_last(), radix, k);
        if number_of(s, radix) is Some {
            let n = number_of(s.drop_last(), radix)->0;
            assert(n * radix >= n) by (nonlinear_arith)
                requires
                    radix >= 1,
            ;
        }
    }
}

/// The value of `c` as a digit, if it is one; any letter allowed in
/// hexadecimal counts where `hex` is set.
fn digit_value(c: char, hex: bool) -> (d: Option<u64>)
    ensures
        d is Some == digit_of(c, if hex { 16 } else { 10 }) is Some,
        d matches Some(v) ==> v == digit_of(c, if hex { 16 } else { 10 })->0 && v < 16,
{
    if '0' <= c && c <= '9' {
        Some((c as u64) - ('0' as u64))
    } else if hex && 'a' <= c && c <= 'f' {
        Some((c as u64) - ('a' as u64) + 10)
    } else if hex && 'A' <= c && c <= 'F' {
        Some((c as u64) - ('A' as u64) + 10)
    } else {
        None
    }
}

/// The number that `chars` writes, in base sixteen where `hex` is set and
/// in base ten where not, if it is at most `limit`.
pub fn parse_number(chars: &Vec<char>, hex: bool, limit: u32) -> (n: Option<u64>)
    ensures
        n is Some == number_up_to(chars@, if hex { 16 } else { 10 }, limit as nat) is Some,
        n matches Some(v) ==> v == number_up_to(
            chars@,
            if hex { 16 } else { 10 },
            limit as nat,
        )->0,
{
    let ghost radix: nat = if hex { 16 } else { 10 };
    let base: u64 = if hex { 16 } else { 10 };
    if chars.len() == 0 {
        return None;
    }
    let mut acc: u64 = 0;
    let mut i: usize = 0;
    while i < chars.len()
        invariant
            i <= chars.len(),
            base == radix,
            radix == (if hex {
                16nat
            } else {
                10nat
            }),
            acc <= limit,
            i > 0 ==> number_of(chars@.take(i as int), radix) == Some(acc as nat),
            i == 0 ==> acc == 0,
        decreases chars.len() - i,
    {
        let ghost prefix = chars@.take(i + 1);
        assert(prefix.drop_last() =~= chars@.take(i as int));
        assert(prefix.last() == chars@[i as int]);
        proof {
            lemma_number_prefix(chars@, radix, i + 1);
        }
        match digit_value(chars[i], hex) {
            None => {
                return None;
            },
            Some(d) => {
                let next: u64 = acc * base + d;
                assert(number_of(prefix, radix) == Some(next as nat));
                if next > limit as u64 {
                    return None;
                }
                acc = next;
            },
        }
        i += 1;
    }
    assert(chars@.take(i as int) =~= chars@);
    Some(acc)
}

/// The characters `chars[from..to]`.
pub fn subvec(chars: &Vec<char>, from: usize, to: usize) -> (part: Vec<char>)
    requires
        from <= to <= chars.len(),
    ensures
        part@ == chars@.subrange(from as int, to as int),
{
    let mut part: Vec<char> = Vec::new();
    let mut i: usize = from;
    while i < to
        invariant
            from <= i <= to <= chars.len(),
            part@ == chars@.subrange(from as int, i as int),
        decreases to - i,
    {
        part.push(chars[i]);
        i += 1;
        assert(part@ =~= chars@.subrange(from as int, i as int));
    }
    part
}

/// The octet that `part` writes.
fn parse_octet(part: &Vec<char>) -> (octet: Option<u8>)
    ensures
        octet is Some == octet_of(part@) is Some,
        octet matches Some(v) ==> v == octet_of(part@)->0,
{
    if part.len() > 3 || (part.len() > 1 && part[0] == '0') {
        return None;
    }
    match parse_number(part, false, 255) {
        Some(v) => Some(v as u8),
        None => None,
    }
}

/// The group that `part` writes.
fn parse_group(part: &Vec<char>) -> (group: Option<u16>)
    ensures
        group is Some == group_of(part@) is Some,
        group matches Some(v) ==> v == group_of(part@)->0,
{
    if part.len() > 4 {
        return None;
    }
    proof {
        lemma_group_bound(part@);
    }
    match parse_number(part, true, 0xffff) {
        Some(v) => Some(v as u16),
        None => None,
    }
}

/// A hexadecimal number of at most four digits is below 65536.
proof fn lemma_group_bound(s: Seq<char>)
    requires
        s.len() <= 4,
    ensures
        number_of(s, 16) matches Some(n) ==> n < 65536,
{
    reveal_with_fuel(number_of, 5);
    if s.len() >= 1 {
        let s1 = s.drop_last();
        if s1.len() >= 1 {
            let s2 = s1.drop_last();
            if s2.len() >= 1 {
                let s3 = s2.drop_last();
                assert(s3.len() <= 1);
            }
        }
    }
}

/// The IPv4 address that `chars` writes.
pub fn parse_ipv4(chars: &Vec<char>) -> (ip: Option<IpAddress>)
    ensures
        ip == ipv4_of(chars@),
{
    let parts = split_chars(chars, '.');
    if parts.len() != 4 {
        return None;
    }
    assert(texts(parts@)[0] == parts@[0]@ && texts(parts@)[1] == parts@[1]@ && texts(parts@)[2]
        == parts@[2]@ && texts(parts@)[3] == parts@[3]@);
    let a = match parse_octet(&parts[0]) {
        Some(v) => v,
        None => {
            return None;
        },
    };
    let b = match parse_octet(&parts[1]) {
        Some(v) => v,
        None => {
            return None;
        },
    };
    let c = match parse_octet(&parts[2]) {
        Some(v) => v,
        None => {
            return None;
        },
    };
    let d = match parse_octet(&parts[3]) {
        Some(v) => v,
        None => {
            return None;
        },
    };
    Some(IpAddress::V4(a, b, c, d))
}

/// Where one part writes no group, no longer run of parts writes groups.
proof fn lemma_hex_groups_none(parts: Seq<Seq<char>>, bad: int, count: int)
    requires
        0 <= bad < count,
        group_of(parts[bad]) is None,
    ensures
        hex_groups(parts, count) is None,
    decreases count,
{
    if bad < count - 1 {
        lemma_hex_groups_none(parts, bad, count - 1);
    }
}

/// The groups that `chars` writes.
pub fn parse_groups(chars: &Vec<char>, v4_tail: bool) -> (groups: Option<Vec<u16>>)
    ensures
        match groups {
            Some(g) => groups_of(chars@, v4_tail) == Some(g@),
            None => groups_of(chars@, v4_tail) is None,
        },
{
    let mut groups: Vec<u16> = Vec::new();
    if chars.len() == 0 {
        return Some(groups);
    }
    let parts = split_chars(chars, ':');
    let ghost ps = texts(parts@);
    let mut i: usize = 0;
    while i < parts.len()
        invariant
            0 <= i <= parts.len(),
            chars@.len() > 0,
            ps == texts(parts@),
            ps == split(chars@, ':'),
            hex_groups(ps, i as int) == Some(groups@),
        decreases parts.len() - i,
    {
        assert(ps[i as int] == parts@[i as int]@);
        match parse_group(&parts[i]) {
            Some(g) => {
                groups.push(g);
            },
            None => {
                proof {
                    lemma_hex_groups_none(ps, i as int, ps.len() as int);
                }
                if v4_tail && i == parts.len() - 1 {
                    match parse_ipv4(&parts[i]) {
                        Some(IpAddress::V4(a, b, c, d)) => {
                            groups.push((a as u16) * 256 + (b as u16));
                            groups.push((c as u16) * 256 + (d as u16));
                            assert(ps.last() == ps[i as int]);
                            return Some(groups);
                        },
                        _ => {
                            assert(ps.last() == ps[i as int]);
                            return None;
                        },
                    }
                } else {
                    proof {
                        if v4_tail {
                            lemma_hex_groups_none(ps, i as int, ps.len() - 1);
                        }
                    }
                    return None;
                }
            },
        }
        i += 1;
    }
    Some(groups)
}

/// Where two colons in a row first stand in `chars`.
fn find_double_colon(chars: &Vec<char>) -> (at: Option<usize>)
    ensures
        match at {
            Some(i) => double_colon(chars@, 0) == Some(i as int) && i + 2 <= chars.len(),
            None => double_colon(chars@, 0) is None,
        },
{
    if chars.len() < 2 {
        return None;
    }
    let mut i: usize = 0;
    while i + 1 < chars.len()
        invariant
            i + 1 <= chars.len(),
            double_colon(chars@, 0) == double_colon(chars@, i as int),
        decreases chars.len() - i,
    {
        if chars[i] == ':' && chars[i + 1] == ':' {
            return Some(i);
        }
        i += 1;
    }
    None
}

/// Where `c` first stands in `chars`.
fn find_char(chars: &Vec<char>, c: char) -> (at: Option<usize>)
    ensures
        match at {
            Some(i) => position_of(chars@, c, 0) == Some(i as int) && i < chars.len()
                && chars@[i as int] == c,
            None => position_of(chars@, c, 0) is None,
        },
{
    let mut i: usize = 0;
    while i < chars.len()
        invariant
            i <= chars.len(),
            position_of(chars@, c, 0) == position_of(chars@, c, i as int),
        decreases chars.len() - i,
    {
        if chars[i] == c {
            return Some(i);
        }
        i += 1;
    }
    None
}

/// The IPv6 address with the groups `head` at its start, the groups
/// `tail` at its end and zeros between.
fn assemble_v6(head: Vec<u16>, tail: &Vec<u16>) -> (ip: IpAddress)
    requires
        head.len() + tail.len() <= 8,
    ensures
        ip == v6_from(head@, tail@),
{
    let mut g = head;
    while g.len() + tail.len() < 8
        invariant
            g.len() + tail.len() <= 8,
            head.len() <= g.len(),
            g@ == head@ + Seq::new((g.len() - head.len()) as nat, |i: int| 0u16),
        decreases 8 - g.len(),
    {
        g.push(0);
        assert(g@ =~= head@ + Seq::new((g.len() - head.len()) as nat, |i: int| 0u16));
    }
    let mut k: usize = 0;
    while k < tail.len()
        invariant
            k <= tail.len(),
            head.len() + tail.len() <= 8,
            g.len() == 8 - tail.len() + k,
            g@ == head@ + Seq::new((8 - head.len() - tail.len()) as nat, |i: int| 0u16)
                + tail@.take(k as int),
        decreases tail.len() - k,
    {
        g.push(tail[k]);
        k += 1;
        assert(g@ =~= head@ + Seq::new((8 - head.len() - tail.len()) as nat, |i: int| 0u16)
            + tail@.take(k as int));
    }
    assert(tail@.take(k as int) =~= tail@);
    IpAddress::V6(g[0], g[1], g[2], g[3], g[4], g[5], g[6], g[7])
}

/// The IPv6 address that `chars` writes.
pub fn parse_ipv6(chars: &Vec<char>) -> (ip: Option<IpAddress>)
    ensures
        ip == ipv6_of(chars@),
{
    match find_double_colon(chars) {
        None => match parse_groups(chars, true) {
            Some(groups) => if groups.len() == 8 {
                let none: Vec<u16> = Vec::new();
                Some(assemble_v6(groups, &none))
            } else {
                None
            },
            None => None,
        },
        Some(at) => {
            let head = parse_groups(&subvec(chars, 0, at), false);
            let tail = parse_groups(&subvec(chars, at + 2, chars.len()), true);
            match (head, tail) {
                (Some(head), Some(tail)) => if head.len() <= 7 && tail.len() <= 7 - head.len() {
                    Some(assemble_v6(head, &tail))
                } else {
                    None
                },
                _ => None,
            }
        },
    }
}

/// The address that `chars` writes, of either IP version.
pub fn parse_ip(chars: &Vec<char>) -> (ip: Option<IpAddress>)
    ensures
        ip == ip_of(chars@),
{
    match parse_ipv4(chars) {
        Some(ip) => Some(ip),
        None => parse_ipv6(chars),
    }
}

/// The port that `chars` writes.
fn parse_port(chars: &Vec<char>) -> (port: Option<u16>)
    ensures
        port is Some == port_of(chars@) is Some,
        port matches Some(v) ==> v == port_of(chars@)->0,
{
    match parse_number(chars, false, 0xffff) {
        Some(v) => Some(v as u16),
        None => None,
    }
}

/// The IPv4 socket address that `chars` writes.
pub fn parse_socket_v4(chars: &Vec<char>) -> (addr: Option<SocketAddress>)
    ensures
        addr == socket_v4_of(chars@),
{
    let parts = split_chars(chars, ':');
    if parts.len() != 2 {
        return None;
    }
    assert(texts(parts@)[0] == parts@[0]@ && texts(parts@)[1] == parts@[1]@);
    match (parse_ipv4(&parts[0]), parse_port(&parts[1])) {
        (Some(ip), Some(port)) => Some(SocketAddress { ip, port, scope_id: 0 }),
        _ => None,
    }
}

/// The address and the zone that the inside of the brackets writes.
fn parse_scoped_v6(chars: &Vec<char>) -> (scoped: Option<(IpAddress, u32)>)
    ensures
        scoped is Some == scoped_v6_of(chars@) is Some,
        scoped matches Some((ip, scope)) ==> scoped_v6_of(chars@) == Some((ip, scope as nat)),
{
    match find_char(chars, '%') {
        None => match parse_ipv6(chars) {
            Some(ip) => Some((ip, 0)),
            None => None,
        },
        Some(at) => {
            let ip = parse_ipv6(&subvec(chars, 0, at));
            let scope = parse_number(&subvec(chars, at + 1, chars.len()), false, u32::MAX);
            match (ip, scope) {
                (Some(ip), Some(scope)) => Some((ip, scope as u32)),
                _ => None,
            }
        },
    }
}

/// The IPv6 socket address that `chars` writes.
pub fn parse_socket_v6(chars: &Vec<char>) -> (addr: Option<SocketAddress>)
    ensures
        addr == socket_v6_of(chars@),
{
    if chars.len() == 0 || chars[0] != '[' {
        return None;
    }
    match find_char(chars, ']') {
        Some(close) => {
            if close + 1 < chars.len() && chars[close + 1] == ':' {
                let scoped = parse_scoped_v6(&subvec(chars, 1, close));
                let port = parse_port(&subvec(chars, close + 2, chars.len()));
                match (scoped, port) {
                    (Some((ip, scope_id)), Some(port)) => Some(
                        SocketAddress { ip, port, scope_id },
                    ),
                    _ => None,
                }
            } else {
                None
            }
        },
        None => None,
    }
}

/// The address that `s` writes, of either IP version.
pub fn parse_ip_addr(s: &str) -> (ip: Option<IpAddress>)
    ensures
        ip == ip_of(s@),
{
    parse_ip(&to_chars(s))
}

/// The IPv4 socket address that `s` writes.
pub fn parse_socket_addr_v4(s: &str) -> (addr: Option<SocketAddress>)
    ensures
        addr == socket_v4_of(s@),
{
    parse_socket_v4(&to_chars(s))
}

/// The IPv6 socket address that `s` writes.
pub fn parse_socket_addr_v6(s: &str) -> (addr: Option<SocketAddress>)
    ensures
        addr == socket_v6_of(s@),
{
    parse_socket_v6(&to_chars(s))
}

/// The IPv4 address `a.b.c.d` as text.
pub open spec fn ipv4_text(a: u8, b: u8, c: u8, d: u8) -> Seq<char> {
    decimal(a as nat) + seq!['.'] + decimal(b as nat) + seq!['.'] + decimal(c as nat) + seq!['.']
        + decimal(d as nat)
}

/// The IPv4 socket address `a.b.c.d:port` as text.
pub open spec fn socket_v4_text(a: u8, b: u8, c: u8, d: u8, port: u16) -> Seq<char> {
    ipv4_text(a, b, c, d) + seq![':'] + decimal(port as nat)
}

/// A number in decimal is digits and nothing else, and is read back as
/// the number.
pub proof fn lemma_decimal_reads_back(n: nat)
    ensures
        decimal(n).len() >= 1,
        forall|i: int| 0 <= i < decimal(n).len() ==> '0' <= #[trigger] decimal(n)[i] <= '9',
        number_of(decimal(n), 10) == Some(n),
    decreases n,
{
    if n >= 10 {
        lemma_decimal_reads_back(n / 10);
        assert(decimal(n).drop_last() =~= decimal(n / 10));
    }
}

/// An octet in decimal is read back as the octet.
proof fn lemma_octet_reads_back(a: u8)
    ensures
        octet_of(decimal(a as nat)) == Some(a as nat),
{
    lemma_decimal_reads_back(a as nat);
    reveal_with_fuel(decimal, 4);
    let n = a as nat;
    if n >= 100 {
        assert(decimal(n) =~= seq![digit_char(n / 100), digit_char((n / 10) % 10), digit_char(n % 10)]);
    } else if n >= 10 {
        assert(decimal(n) =~= seq![digit_char(n / 10), digit_char(n % 10)]);
    }
}

/// An IPv4 address written as four octets in decimal with points between
/// them is read back as that address.
pub proof fn lemma_ipv4_round_trip(a: u8, b: u8, c: u8, d: u8)
    ensures
        ipv4_of(ipv4_text(a, b, c, d)) == Some(IpAddress::V4(a, b, c, d)),
        forall|i: int|
            0 <= i < ipv4_text(a, b, c, d).len() ==> #[trigger] ipv4_text(a, b, c, d)[i] != ':',
{
    let (ta, tb, tc, td) = (
        decimal(a as nat),
        decimal(b as nat),
        decimal(c as nat),
        decimal(d as nat),
    );
    lemma_decimal_reads_back(a as nat);
    lemma_decimal_reads_back(b as nat);
    lemma_decimal_reads_back(c as nat);
    lemma_decimal_reads_back(d as nat);
    lemma_octet_reads_back(a);
    lemma_octet_reads_back(b);
    lemma_octet_reads_back(c);
    lemma_octet_reads_back(d);
    lemma_split_one(ta, '.');
    lemma_split_one(tb, '.');
    lemma_split_one(tc, '.');
    lemma_split_one(td, '.');
    lemma_split_concat(ta, tb, '.');
    lemma_split_concat(ta + seq!['.'] + tb, tc, '.');
    lemma_split_concat(ta + seq!['.'] + tb + seq!['.'] + tc, td, '.');
    let parts = split(ipv4_text(a, b, c, d), '.');
    assert(parts =~= seq![ta, tb, tc, td]);
}

/// An IPv4 socket address written as four octets and a port in decimal
/// is read back as that socket address.
pub proof fn lemma_socket_v4_round_trip(a: u8, b: u8, c: u8, d: u8, port: u16)
    ensures
        socket_v4_of(socket_v4_text(a, b, c, d, port)) == Some(
            SocketAddress { ip: IpAddress::V4(a, b, c, d), port, scope_id: 0 },
        ),
        forall|i: int|
            0 <= i < socket_v4_text(a, b, c, d, port).len() ==> #[trigger] socket_v4_text(
                a,
                b,
                c,
                d,
                port,
            )[i] != ';',
{
    let ip = ipv4_text(a, b, c, d);
    let p = decimal(port as nat);
    lemma_ipv4_round_trip(a, b, c, d);
    lemma_decimal_reads_back(port as nat);
    lemma_decimal_reads_back(a as nat);
    lemma_decimal_reads_back(b as nat);
    lemma_decimal_reads_back(c as nat);
    lemma_decimal_reads_back(d as nat);
    lemma_split_one(ip, ':');
    lemma_split_one(p, ':');
    lemma_split_concat(ip, p, ':');
    assert(split(socket_v4_text(a, b, c, d, port), ':') =~= seq![ip, p]);
}

/// The hexadecimal digit `d` as a character, a letter in lower case.
pub open spec fn hex_digit_char(d: nat) -> char
    recommends
        d < 16,
{
    if d < 10 {
        (('0' as u8) + d) as char
    } else {
        (('a' as u8) + d - 10) as char
    }
}

/// `n` written in hexadecimal, without leading zeros.
pub open spec fn hex(n: nat) -> Seq<char>
    decreases n,
{
    if n < 16 {
        seq![hex_digit_char(n)]
    } else {
        hex(n / 16).push(hex_digit_char(n % 16))
    }
}

/// The groups in hexadecimal.
pub open spec fn hex_texts(groups: Seq<u16>) -> Seq<Seq<char>> {
    groups.map_values(|g: u16| hex(g as nat))
}

/// The IPv6 address of the given eight groups as text: every group in
/// hexadecimal, with colons between them.
pub open spec fn ipv6_text(groups: Seq<u16>) -> Seq<char> {
    join(hex_texts(groups), ':')
}

/// The IPv6 socket address `[groups]:port` as text.
pub open spec fn socket_v6_text(groups: Seq<u16>, port: u16) -> Seq<char> {
    seq!['['] + ipv6_text(groups) + seq![']', ':'] + decimal(port as nat)
}

/// Whether `c` is a digit or a letter from `a` to `f`.
pub open spec fn is_lower_hex(c: char) -> bool {
    ('0' <= c <= '9') || ('a' <= c <= 'f')
}

/// A number in hexadecimal is hexadecimal digits and nothing else, and is
/// read back as the number.
pub proof fn lemma_hex_reads_back(n: nat)
    ensures
        hex(n).len() >= 1,
        forall|i: int| 0 <= i < hex(n).len() ==> is_lower_hex(#[trigger] hex(n)[i]),
        number_of(hex(n), 16) == Some(n),
    decreases n,
{
    if n >= 16 {
        lemma_hex_reads_back(n / 16);
        assert(hex(n).drop_last() =~= hex(n / 16));
    }
}

/// A group in hexadecimal has at most four digits and is read back as
/// the group.
proof fn lemma_group_reads_back(g: u16)
    ensures
        group_of(hex(g as nat)) == Some(g as nat),
{
    lemma_hex_reads_back(g as nat);
    reveal_with_fuel(hex, 5);
    let n = g as nat;
    if n >= 4096 {
        assert(hex(n).len() == 4);
    } else if n >= 256 {
        assert(hex(n).len() == 3);
    } else if n >= 16 {
        assert(hex(n).len() == 2);
    }
}

/// The groups that their texts write are the groups.
proof fn lemma_hex_groups_read_back(groups: Seq<u16>, count: int)
    requires
        0 <= count <= groups.len(),
    ensures
        hex_groups(hex_texts(groups), count) == Some(groups.take(count)),
    decreases count,
{
    if count > 0 {
        lemma_hex_groups_read_back(groups, count - 1);
        lemma_group_reads_back(groups[count - 1]);
        assert(groups.take(count - 1).push(groups[count - 1]) =~= groups.take(count));
    } else {
        assert(groups.take(0) =~= Seq::<u16>::empty());
    }
}

/// Groups joined by colons begin and end with a digit, hold digits and
/// colons only, and no two colons in a row.
proof fn lemma_joined_groups(groups: Seq<u16>)
    requires
        groups.len() >= 1,
    ensures
        ipv6_text(groups).len() >= 1,
        is_lower_hex(ipv6_text(groups).first()),
        is_lower_hex(ipv6_text(groups).last()),
        forall|i: int|
            0 <= i < ipv6_text(groups).len() ==> is_lower_hex(#[trigger] ipv6_text(groups)[i])
                || ipv6_text(groups)[i] == ':',
        forall|i: int|
            0 <= i < ipv6_text(groups).len() - 1 ==> !(#[trigger] ipv6_text(groups)[i] == ':'
                && ipv6_text(groups)[i + 1] == ':'),
    decreases groups.len(),
{
    let texts = hex_texts(groups);
    lemma_hex_reads_back(groups.last() as nat);
    if groups.len() == 1 {
        assert(ipv6_text(groups) == hex(groups[0] as nat));
    } else {
        let front = groups.drop_last();
        lemma_joined_groups(front);
        assert(texts.drop_last() =~= hex_texts(front));
        let t = ipv6_text(front);
        let h = hex(groups.last() as nat);
        assert(ipv6_text(groups) =~= t + seq![':'] + h);
        let whole = ipv6_text(groups);
        assert forall|i: int| 0 <= i < whole.len() implies is_lower_hex(#[trigger] whole[i])
            || whole[i] == ':' by {
            if i < t.len() {
                assert(whole[i] == t[i]);
            } else if i > t.len() {
                assert(whole[i] == h[i - t.len() - 1]);
            }
        }
        assert forall|i: int| 0 <= i < whole.len() - 1 implies !(#[trigger] whole[i] == ':'
            && whole[i + 1] == ':') by {
            if i + 1 < t.len() {
                assert(whole[i] == t[i] && whole[i + 1] == t[i + 1]);
            } else if i + 1 == t.len() {
                assert(whole[i] == t.last());
            } else if i == t.len() {
                assert(whole[i + 1] == h.first());
            } else {
                assert(whole[i] == h[i - t.len() - 1]);
            }
        }
        assert(whole.last() == h.last());
        assert(whole.first() == t.first());
    }
}

/// Where no two colons stand in a row, none are found.
proof fn lemma_no_double_colon(s: Seq<char>, from: int)
    requires
        0 <= from,
        forall|i: int| 0 <= i < s.len() - 1 ==> !(#[trigger] s[i] == ':' && s[i + 1] == ':'),
    ensures
        double_colon(s, from) is None,
    decreases s.len() - from,
{
    if from + 2 <= s.len() {
        lemma_no_double_colon(s, from + 1);
    }
}

/// The first place where a character stands is found, and where it
/// stands nowhere, none is.
proof fn lemma_position_of(s: Seq<char>, c: char, from: int, at: int)
    requires
        0 <= from <= at <= s.len(),
        forall|i: int| from <= i < at ==> s[i] != c,
        at < s.len() ==> s[at] == c,
    ensures
        position_of(s, c, from) == (if at < s.len() {
            Some(at)
        } else {
            None
        }),
    decreases at - from,
{
    if from < at {
        lemma_position_of(s, c, from + 1, at);
    }
}

/// An IPv6 address written as eight groups in hexadecimal with colons
/// between them is read back as that address.
pub proof fn lemma_ipv6_round_trip(groups: Seq<u16>)
    requires
        groups.len() == 8,
    ensures
        ipv6_of(ipv6_text(groups)) == Some(
            IpAddress::V6(
                groups[0],
                groups[1],
                groups[2],
                groups[3],
                groups[4],
                groups[5],
                groups[6],
                groups[7],
            ),
        ),
{
    let t = ipv6_text(groups);
    let texts = hex_texts(groups);
    lemma_joined_groups(groups);
    lemma_no_double_colon(t, 0);
    assert forall|i: int, j: int|
        0 <= i < texts.len() && 0 <= j < texts[i].len() implies #[trigger] texts[i][j]
        != ':' by {
        lemma_hex_reads_back(groups[i] as nat);
        assert(is_lower_hex(hex(groups[i] as nat)[j]));
    }
    lemma_split_of_join(texts, ':');
    lemma_hex_groups_read_back(groups, 8);
    assert(groups.take(8) =~= groups);
    let none = Seq::<u16>::empty();
    assert(groups + Seq::new((8 - groups.len() - none.len()) as nat, |i: int| 0u16) + none
        =~= groups);
}

/// What is found of brackets in a text of the form `[inside]:after`,
/// where `inside` holds no closing bracket.
proof fn lemma_bracketed(inside: Seq<char>, after: Seq<char>)
    requires
        forall|i: int| 0 <= i < inside.len() ==> inside[i] != ']',
    ensures
        ({
            let s = seq!['['] + inside + seq![']', ':'] + after;
            let close = 1 + inside.len() as int;
            &&& s.len() == inside.len() + after.len() + 3
            &&& s[0] == '['
            &&& position_of(s, ']', 0) == Some(close)
            &&& s[close + 1] == ':'
            &&& s.subrange(1, close) == inside
            &&& s.subrange(close + 2, s.len() as int) == after
        }),
{
    let s = seq!['['] + inside + seq![']', ':'] + after;
    let close = 1 + inside.len() as int;
    assert forall|i: int| 0 <= i < close implies s[i] != ']' by {
        if i >= 1 {
            assert(s[i] == inside[i - 1]);
        }
    }
    assert(s[close] == ']');
    lemma_position_of(s, ']', 0, close);
    assert(s.subrange(1, close) =~= inside);
    assert(s.subrange(close + 2, s.len() as int) =~= after);
}

/// The inside of the brackets without a percent sign is an address in no
/// particular zone.
proof fn lemma_unscoped(groups: Seq<u16>)
    requires
        groups.len() == 8,
    ensures
        scoped_v6_of(ipv6_text(groups)) == Some(
            (
                IpAddress::V6(
                    groups[0],
                    groups[1],
                    groups[2],
                    groups[3],
                    groups[4],
                    groups[5],
                    groups[6],
                    groups[7],
                ),
                0nat,
            ),
        ),
        forall|i: int|
            0 <= i < ipv6_text(groups).len() ==> #[trigger] ipv6_text(groups)[i] != ']'
                && ipv6_text(groups)[i] != ';',
{
    let t = ipv6_text(groups);
    lemma_joined_groups(groups);
    lemma_ipv6_round_trip(groups);
    assert forall|i: int| 0 <= i < t.len() implies t[i] != '%' && #[trigger] t[i] != ']' && t[i]
        != ';' by {
        assert(is_lower_hex(t[i]) || t[i] == ':');
    }
    lemma_position_of(t, '%', 0, t.len() as int);
}

/// An IPv6 socket address written as eight groups in hexadecimal inside
/// square brackets and a port in decimal is read back as that socket
/// address, in no particular zone.
pub proof fn lemma_socket_v6_round_trip(groups: Seq<u16>, port: u16)
    requires
        groups.len() == 8,
    ensures
        socket_v6_of(socket_v6_text(groups, port)) == Some(
            SocketAddress {
                ip: IpAddress::V6(
                    groups[0],
                    groups[1],
                    groups[2],
                    groups[3],
                    groups[4],
                    groups[5],
                    groups[6],
                    groups[7],
                ),
                port,
                scope_id: 0,
            },
        ),
        forall|i: int|
            0 <= i < socket_v6_text(groups, port).len() ==> #[trigger] socket_v6_text(
                groups,
                port,
            )[i] != ';',
{
    let t = ipv6_text(groups);
    let p = decimal(port as nat);
    let s = socket_v6_text(groups, port);
    let close = 1 + t.len() as int;
    lemma_unscoped(groups);
    lemma_decimal_reads_back(port as nat);
    assert forall|i: int| 0 <= i < t.len() implies t[i] != ']' by {
        assert(ipv6_text(groups)[i] != ']');
    }
    lemma_bracketed(t, p);
    assert(port_of(p) == Some(port as nat));
    assert forall|i: int| 0 <= i < s.len() implies #[trigger] s[i] != ';' by {
        if 1 <= i < close {
            assert(s[i] == t[i - 1]);
            assert(ipv6_text(groups)[i - 1] != ';');
        } else if i >= close + 2 {
            assert(s[i] == p[i - close - 2]);
        }
    }
}

} // verus!
