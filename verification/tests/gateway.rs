use dns_bench::gateway::{
    parse_ip_route_default_output, parse_netstat_rn_output, parse_proc_net_route_content,
    parse_route_get_default_output, parse_route_print_output, GatewayError,
};
use dns_bench::net::IpAddress;

const GATEWAY: IpAddress = IpAddress::V4(192, 168, 0, 1);

const LINUX_PROC_NET_ROUTE: &str = "\
Iface\tDestination\tGateway \tFlags\tRefCnt\tUse\tMetric\tMask\t\tMTU\tWindow\tIRTT
eth0\t00000000\t0100A8C0\t0003\t0\t0\t100\t00000000\t0\t0\t0
eth0\t0000A8C0\t00000000\t0001\t0\t0\t100\t00FFFFFF\t0\t0\t0
";

const LINUX_IP_ROUTE_DEFAULT: &str = "default via 192.168.0.1 dev eth0 proto dhcp src 192.168.0.17 metric 100 \n";

const MAC_ROUTE_GET_DEFAULT: &str = "   route to: default
destination: default
       mask: default
    gateway: 192.168.0.1
  interface: en0
      flags: <UP,GATEWAY,DONE,STATIC,PRCLONING,GLOBAL>
 recvpipe  sendpipe  ssthresh  rtt,msec    rttvar  hopcount      mtu     expire
       0         0         0         0         0         0      1500         0
";

const MAC_NETSTAT_RN: &str = "Routing tables

Internet:
Destination        Gateway            Flags           Netif Expire
default            192.168.0.1        UGScg             en0
127                127.0.0.1          UCS               lo0
192.168.0          link#6             UCS               en0      !

Internet6:
Destination                             Gateway                         Flags           Netif Expire
default                                 fe80::%utun0                    UGcIg           utun0
";

const WIN_ROUTE_PRINT: &str = "===========================================================================\r
Interface List\r
 12...00 ff aa bb cc dd ......Intel(R) Ethernet Connection\r
  1...........................Software Loopback Interface 1\r
===========================================================================\r
\r
IPv4 Route Table\r
===========================================================================\r
Active Routes:\r
Network Destination        Netmask          Gateway       Interface  Metric\r
          0.0.0.0          0.0.0.0      192.168.0.1    192.168.0.100     25\r
        127.0.0.0        255.0.0.0         On-link         127.0.0.1    331\r
===========================================================================\r
Persistent Routes:\r
  None\r
\r
IPv6 Route Table\r
===========================================================================\r
";

const WIN_ROUTE_PRINT_RU: &str = "===========================================================================\r
Список интерфейсов\r
 12...00 ff aa bb cc dd ......Intel(R) Ethernet Connection\r
===========================================================================\r
\r
IPv4 таблица маршрута\r
===========================================================================\r
Активные маршруты:\r
Сетевой адрес           Маска сети      Адрес шлюза       Интерфейс  Метрика\r
          0.0.0.0          0.0.0.0      192.168.0.1    192.168.0.100     25\r
        127.0.0.0        255.0.0.0         On-link         127.0.0.1    331\r
===========================================================================\r
";

#[test]
fn test_parse_proc_net_route_content() {
    let result = parse_proc_net_route_content(LINUX_PROC_NET_ROUTE).unwrap();
    assert_eq!(result, GATEWAY);
}

#[test]
fn test_parse_ip_route_default_output() {
    let result = parse_ip_route_default_output(LINUX_IP_ROUTE_DEFAULT).unwrap();
    assert_eq!(result, GATEWAY);
}

#[test]
fn test_parse_route_get_default_output() {
    let result = parse_route_get_default_output(MAC_ROUTE_GET_DEFAULT).unwrap();
    assert_eq!(result, GATEWAY);
}

#[test]
fn test_parse_netstat_rn_output() {
    let result = parse_netstat_rn_output(MAC_NETSTAT_RN).unwrap();
    assert_eq!(result, GATEWAY);
}

#[test]
fn test_parse_route_print_output() {
    let result = parse_route_print_output(WIN_ROUTE_PRINT).unwrap();
    assert_eq!(result, GATEWAY);
}

#[test]
fn test_parse_route_print_output_ru() {
    let result = parse_route_print_output(WIN_ROUTE_PRINT_RU).unwrap();
    assert_eq!(result, GATEWAY);
}

#[test]
fn proc_net_route_skips_the_heading_and_reads_bytes_backwards() {
    assert_eq!(parse_proc_net_route_content(""), Err(GatewayError::NotFound));
    assert_eq!(parse_proc_net_route_content("Iface Destination Gateway\n"), Err(GatewayError::NotFound));
    // A default route in the first line is the heading and does not count.
    assert_eq!(parse_proc_net_route_content("eth0 00000000 0100A8C0"), Err(GatewayError::NotFound));
    assert_eq!(
        parse_proc_net_route_content("h\neth0 00000000 0100A8C0"),
        Ok(IpAddress::V4(192, 168, 0, 1))
    );
    assert_eq!(
        parse_proc_net_route_content("h\neth0 00000000 fe01a8c0 0003"),
        Ok(IpAddress::V4(192, 168, 1, 254))
    );
    assert_eq!(
        parse_proc_net_route_content("h\neth0 0000A8C0 00000000\neth1 00000000 0A0B0C0D"),
        Ok(IpAddress::V4(13, 12, 11, 10))
    );
    assert_eq!(parse_proc_net_route_content("h\neth0 00000000"), Err(GatewayError::NotFound));
}

#[test]
fn proc_net_route_refuses_a_gateway_that_is_no_address() {
    for gateway in ["0100A8C", "0100A8C00", "0100A8CG", "", "0x00A8C0", "-100A8C0", "0100 A8C0"] {
        let content = format!("heading\neth0\t00000000\t{gateway}\t0003\n");
        // Where the gateway is missing or cut in two, the word that stands
        // in its place is no address either.
        assert_eq!(
            parse_proc_net_route_content(&content),
            Err(GatewayError::InvalidData),
            "{gateway:?}"
        );
    }
    // The first default route decides, valid or not.
    assert_eq!(
        parse_proc_net_route_content("h\na 00000000 zzzzzzzz\nb 00000000 0100A8C0"),
        Err(GatewayError::InvalidData)
    );
    // A plus sign may stand for the first digit of a byte.
    assert_eq!(
        parse_proc_net_route_content("h\na 00000000 +1+2+3+4"),
        Ok(IpAddress::V4(4, 3, 2, 1))
    );
}

#[test]
fn ip_route_wants_default_and_via() {
    assert_eq!(
        parse_ip_route_default_output("default via 10.0.0.1"),
        Ok(IpAddress::V4(10, 0, 0, 1))
    );
    assert_eq!(
        parse_ip_route_default_output("default dev ppp0 via fe80::1"),
        Ok(IpAddress::V6(0xfe80, 0, 0, 0, 0, 0, 0, 1))
    );
    assert_eq!(
        parse_ip_route_default_output("default via nowhere via 10.0.0.2"),
        Ok(IpAddress::V4(10, 0, 0, 2))
    );
    assert_eq!(
        parse_ip_route_default_output("10.0.0.0/8 via 10.0.0.1 dev eth0\ndefault via 10.0.0.9 dev eth0"),
        Ok(IpAddress::V4(10, 0, 0, 9))
    );
    for text in ["", "default via", "default dev eth0 scope link", "via 10.0.0.1 default x", "default x via"] {
        assert_eq!(parse_ip_route_default_output(text), Err(GatewayError::NotFound), "{text:?}");
    }
}

#[test]
fn route_get_and_netstat_want_their_prefix() {
    assert_eq!(parse_route_get_default_output("gateway: 10.0.0.1"), Ok(IpAddress::V4(10, 0, 0, 1)));
    assert_eq!(parse_route_get_default_output("gateway:10.0.0.1 10.0.0.2"), Ok(IpAddress::V4(10, 0, 0, 2)));
    assert_eq!(parse_route_get_default_output("gateway:"), Err(GatewayError::NotFound));
    assert_eq!(parse_route_get_default_output("Gateway: 10.0.0.1"), Err(GatewayError::NotFound));
    assert_eq!(
        parse_route_get_default_output("gateway: link#6\n\u{a0}gateway: 10.0.0.3\u{3000}"),
        Ok(IpAddress::V4(10, 0, 0, 3))
    );
    assert_eq!(parse_netstat_rn_output("default\t10.0.0.1"), Ok(IpAddress::V4(10, 0, 0, 1)));
    assert_eq!(parse_netstat_rn_output("  default 10.0.0.1 UG"), Ok(IpAddress::V4(10, 0, 0, 1)));
    assert_eq!(parse_netstat_rn_output("default"), Err(GatewayError::NotFound));
    assert_eq!(parse_netstat_rn_output("defaults 10.0.0.1"), Err(GatewayError::NotFound));
    assert_eq!(parse_netstat_rn_output("default link#6 UCS"), Err(GatewayError::NotFound));
}

#[test]
fn route_print_looks_only_below_the_ipv4_heading() {
    assert_eq!(parse_route_print_output("0.0.0.0 0.0.0.0 10.0.0.1"), Err(GatewayError::NotFound));
    assert_eq!(
        parse_route_print_output("ipV4\n0.0.0.0 0.0.0.0 10.0.0.1"),
        Ok(IpAddress::V4(10, 0, 0, 1))
    );
    assert_eq!(
        parse_route_print_output("x IPV4 y\n\n \n0.0.0.0 0.0.0.0 On-link\n0.0.0.0 0.0.0.0 10.0.0.2 10.0.0.3"),
        Ok(IpAddress::V4(10, 0, 0, 2))
    );
    // The heading line itself is not read as a route.
    assert_eq!(parse_route_print_output("0.0.0.0 0.0.0.0 10.0.0.1 ipv4"), Err(GatewayError::NotFound));
    assert_eq!(parse_route_print_output("IPv4\n0.0.0.0 0.0.0.0"), Err(GatewayError::NotFound));
    assert_eq!(parse_route_print_output("IPv4\n0.0.0.0 255.0.0.0 10.0.0.1"), Err(GatewayError::NotFound));
    assert_eq!(parse_route_print_output(""), Err(GatewayError::NotFound));
}

#[test]
fn route_print_heading_agrees_with_lower_casing() {
    for heading in [
        "IPv4 Route Table",
        "IPV4",
        "ipv4",
        "xIpV4x",
        "IPv6 Route Table",
        "IP v4",
        "\u{130}PV4",
        "IPV\u{ff14}",
        "\u{418}Pv4 \u{442}\u{430}\u{431}\u{43b}\u{438}\u{446}\u{430}",
        "I\u{307}PV4",
        "=====",
    ] {
        let text = format!("{heading}\n0.0.0.0 0.0.0.0 10.0.0.1 10.0.0.7 25\n");
        let expected = if heading.to_lowercase().contains("ipv4") {
            Ok(IpAddress::V4(10, 0, 0, 1))
        } else {
            Err(GatewayError::NotFound)
        };
        assert_eq!(parse_route_print_output(&text), expected, "{heading:?}");
    }
}
