use dns_bench::net::{IpAddress, SocketAddress};
use dns_bench::parse::{parse_ip_addr, parse_socket_addr_v4, parse_socket_addr_v6};

#[test]
fn ipv4_addresses_are_four_octets() {
    let cases = [
        ("8.8.8.8", IpAddress::V4(8, 8, 8, 8)),
        ("0.0.0.0", IpAddress::V4(0, 0, 0, 0)),
        ("255.255.255.255", IpAddress::V4(255, 255, 255, 255)),
        ("192.168.0.1", IpAddress::V4(192, 168, 0, 1)),
        ("10.0.0.255", IpAddress::V4(10, 0, 0, 255)),
    ];
    for (text, ip) in cases {
        assert_eq!(parse_ip_addr(text), Some(ip), "{text:?}");
    }
}

#[test]
fn ipv6_addresses_are_eight_groups_or_fewer_with_a_gap() {
    let cases = [
        ("::", IpAddress::V6(0, 0, 0, 0, 0, 0, 0, 0)),
        ("::1", IpAddress::V6(0, 0, 0, 0, 0, 0, 0, 0x1)),
        ("1::", IpAddress::V6(0x1, 0, 0, 0, 0, 0, 0, 0)),
        ("1:2:3:4:5:6:7:8", IpAddress::V6(0x1, 0x2, 0x3, 0x4, 0x5, 0x6, 0x7, 0x8)),
        ("1:2:3:4:5:6:7::", IpAddress::V6(0x1, 0x2, 0x3, 0x4, 0x5, 0x6, 0x7, 0)),
        ("::2:3:4:5:6:7:8", IpAddress::V6(0, 0x2, 0x3, 0x4, 0x5, 0x6, 0x7, 0x8)),
        ("1:2:3:4::5:6:7", IpAddress::V6(0x1, 0x2, 0x3, 0x4, 0, 0x5, 0x6, 0x7)),
        ("1::8", IpAddress::V6(0x1, 0, 0, 0, 0, 0, 0, 0x8)),
        ("2001:4860:4860:0:0:0:0:8888", IpAddress::V6(0x2001, 0x4860, 0x4860, 0, 0, 0, 0, 0x8888)),
        ("2001:4860:4860::8888", IpAddress::V6(0x2001, 0x4860, 0x4860, 0, 0, 0, 0, 0x8888)),
        ("2001:DB8::aBcD", IpAddress::V6(0x2001, 0xdb8, 0, 0, 0, 0, 0, 0xabcd)),
        ("fe80::1", IpAddress::V6(0xfe80, 0, 0, 0, 0, 0, 0, 0x1)),
        ("0000:0000:0000:0000:0000:0000:0000:0000", IpAddress::V6(0, 0, 0, 0, 0, 0, 0, 0)),
        ("::ffff:1.2.3.4", IpAddress::V6(0, 0, 0, 0, 0, 0xffff, 0x102, 0x304)),
        ("::1.2.3.4", IpAddress::V6(0, 0, 0, 0, 0, 0, 0x102, 0x304)),
        ("1:2:3:4:5:6:1.2.3.4", IpAddress::V6(0x1, 0x2, 0x3, 0x4, 0x5, 0x6, 0x102, 0x304)),
        ("1::2:3:4:5:1.2.3.4", IpAddress::V6(0x1, 0, 0x2, 0x3, 0x4, 0x5, 0x102, 0x304)),
        ("::12.3.4.5", IpAddress::V6(0, 0, 0, 0, 0, 0, 0xc03, 0x405)),
        ("ffff:ffff:ffff:ffff:ffff:ffff:255.255.255.255", IpAddress::V6(0xffff, 0xffff, 0xffff, 0xffff, 0xffff, 0xffff, 0xffff, 0xffff)),
    ];
    for (text, ip) in cases {
        assert_eq!(parse_ip_addr(text), Some(ip), "{text:?}");
    }
}

#[test]
fn texts_that_are_no_address() {
    let cases = [
        "256.1.1.1",
        "1.1.1",
        "1.1.1.1.1",
        "1.1.1.1.",
        ".1.1.1.1",
        "1..1.1",
        "01.1.1.1",
        "1.1.1.01",
        "00.0.0.0",
        "1.1.1.1 ",
        " 1.1.1.1",
        "1.1.1.a",
        "1.1.1.1000",
        "1.1.1.0255",
        "+1.1.1.1",
        "",
        ":::",
        "::::",
        ":",
        "1",
        "1:2:3:4:5:6:7",
        "1:2:3:4:5:6:7:8:9",
        "1:2:3:4:5:6:7:8::",
        "::1:2:3:4:5:6:7:8",
        "1:::8",
        "1::2::3",
        "fe80::1%3",
        "12345::",
        "::12345",
        "g::",
        "::g",
        "00000::",
        "1.2.3.4::",
        "1:2:3:4:5:6:7:1.2.3.4",
        "1:2:3:4:5:1.2.3.4",
        "1:2:3:4:5:1.2.3.4:6",
        "::1.2.3.4:5",
        "1::2:3:4:5:6:1.2.3.4",
        "::1.2.3.04",
        "::1.2.3.4444",
        "::1.2.3",
        "::1.2.3.4.5",
        "::a.3.4.5",
        "::1a.2.3.4",
        "1:2::3:",
        ":1::2",
        "1:",
        ":1",
        "1:2:3:4:5:6:7:",
        ":1:2:3:4:5:6:7",
        "1:2:3:4:5:6::7:8",
        "[::1]",
        "::1]",
        "1:2:3:4:5:6:7:8 ",
        "١::",
        "1:2:3:4:5:6:7:1.2",
        "8.8.8.8:53",
    ];
    for text in cases {
        assert_eq!(parse_ip_addr(text), None, "{text:?}");
    }
}

fn v4(a: u8, b: u8, c: u8, d: u8, port: u16) -> SocketAddress {
    SocketAddress { ip: IpAddress::V4(a, b, c, d), port, scope_id: 0 }
}

fn v6(groups: [u16; 8], port: u16, scope_id: u32) -> SocketAddress {
    let [a, b, c, d, e, f, g, h] = groups;
    SocketAddress { ip: IpAddress::V6(a, b, c, d, e, f, g, h), port, scope_id }
}

#[test]
fn ipv4_socket_addresses() {
    assert_eq!(parse_socket_addr_v4("8.8.8.8:53"), Some(v4(8, 8, 8, 8, 53)));
    assert_eq!(parse_socket_addr_v4("8.8.8.8:0"), Some(v4(8, 8, 8, 8, 0)));
    assert_eq!(parse_socket_addr_v4("8.8.8.8:65535"), Some(v4(8, 8, 8, 8, 65535)));
    assert_eq!(parse_socket_addr_v4("8.8.8.8:0053"), Some(v4(8, 8, 8, 8, 53)));
    assert_eq!(parse_socket_addr_v4("8.8.8.8:000000000000000000000053"), Some(v4(8, 8, 8, 8, 53)));
    for text in [
        "8.8.8.8:65536", "8.8.8.8:", "8.8.8.8", "8.8.8.8:5a", "8.8.8.8:+53", "8.8.8.8:-1",
        "8.8.8.8 :53", "8.8.8.8: 53", "8.8.8.8:53 ", "08.8.8.8:53", "8.8.8:53", "8.8.8.8.8:53",
        "8.8.8.8:53:53", ":53", "[8.8.8.8]:53", "", "[::1]:53", "::1:53",
        "8.8.8.8:99999999999999999999999999",
    ] {
        assert_eq!(parse_socket_addr_v4(text), None, "{text:?}");
    }
}

#[test]
fn ipv6_socket_addresses() {
    let one = [0, 0, 0, 0, 0, 0, 0, 1];
    let link = [0xfe80, 0, 0, 0, 0, 0, 0, 1];
    assert_eq!(
        parse_socket_addr_v6("[2001:4860:4860:0:0:0:0:8888]:53"),
        Some(v6([0x2001, 0x4860, 0x4860, 0, 0, 0, 0, 0x8888], 53, 0))
    );
    assert_eq!(
        parse_socket_addr_v6("[2001:4860:4860::8888]:53"),
        Some(v6([0x2001, 0x4860, 0x4860, 0, 0, 0, 0, 0x8888], 53, 0))
    );
    assert_eq!(parse_socket_addr_v6("[::1]:53"), Some(v6(one, 53, 0)));
    assert_eq!(parse_socket_addr_v6("[::]:0"), Some(v6([0; 8], 0, 0)));
    assert_eq!(parse_socket_addr_v6("[::1]:00053"), Some(v6(one, 53, 0)));
    assert_eq!(parse_socket_addr_v6("[fe80::1%3]:53"), Some(v6(link, 53, 3)));
    assert_eq!(parse_socket_addr_v6("[fe80::1%0]:53"), Some(v6(link, 53, 0)));
    assert_eq!(parse_socket_addr_v6("[fe80::1%03]:53"), Some(v6(link, 53, 3)));
    assert_eq!(parse_socket_addr_v6("[fe80::1%4294967295]:53"), Some(v6(link, 53, 4294967295)));
    assert_eq!(
        parse_socket_addr_v6("[::ffff:1.2.3.4]:53"),
        Some(v6([0, 0, 0, 0, 0, 0xffff, 0x0102, 0x0304], 53, 0))
    );
    for text in [
        "[::1]:65536", "[::1]:", "[::1]", "::1:53", "[::1:53", "[[::1]]:53", "[::1]]:53",
        "[fe80::1%4294967296]:53", "[fe80::1%]:53", "[fe80::1%eth0]:53", "[fe80::1%3%4]:53",
        "[1.2.3.4]:53", "[::1] :53", "[::1]:53 ", " [::1]:53", "[]:53", "[:::]:53", "", "[",
        "8.8.8.8:53", "[::1%]:53", "[%1]:53", "[::1]53",
    ] {
        assert_eq!(parse_socket_addr_v6(text), None, "{text:?}");
    }
}
