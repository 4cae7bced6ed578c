//! Internet addresses as plain values.

use vstd::prelude::*;

verus! {

/// An IPv4 address by its four octets, or an IPv6 address by its eight
/// 16-bit groups, most significant first.
#[derive(Clone, Copy, Debug, PartialEq, Eq, Hash, Structural)]
pub enum IpAddress {
    V4(u8, u8, u8, u8),
    V6(u16, u16, u16, u16, u16, u16, u16, u16),
}

impl IpAddress {
    /// The IPv4 address `0.0.0.0`.
    pub open spec fn unspecified_v4() -> IpAddress {
        IpAddress::V4(0, 0, 0, 0)
    }

    /// The IPv6 address `::`.
    pub open spec fn unspecified_v6() -> IpAddress {
        IpAddress::V6(0, 0, 0, 0, 0, 0, 0, 0)
    }

    /// Whether this is an IPv4 address.
    pub fn is_ipv4(&self) -> (b: bool)
        ensures
            b == (*self is V4),
    {
        match self {
            IpAddress::V4(..) => true,
            IpAddress::V6(..) => false,
        }
    }

    /// Whether this is an IPv6 address.
    pub fn is_ipv6(&self) -> (b: bool)
        ensures
            b == (*self is V6),
    {
        match self {
            IpAddress::V4(..) => false,
            IpAddress::V6(..) => true,
        }
    }
}

/// The port DNS servers listen on.
pub const DNS_PORT: u16 = 53;

/// An address and a port. For an IPv6 address `scope_id` names the zone
/// the address belongs to; it is zero for IPv4.
#[derive(Clone, Copy, Debug, PartialEq, Eq, Hash, Structural)]
pub struct SocketAddress {
    pub ip: IpAddress,
    pub port: u16,
    pub scope_id: u32,
}

impl SocketAddress {
    /// The socket address of `ip` at `port`, in no particular zone.
    pub fn new(ip: IpAddress, port: u16) -> (a: SocketAddress)
        ensures
            a == (SocketAddress { ip, port, scope_id: 0 }),
    {
        SocketAddress { ip, port, scope_id: 0 }
    }

    /// The address part.
    pub fn ip(&self) -> (ip: IpAddress)
        ensures
            ip == self.ip,
    {
        self.ip
    }

    /// The port.
    pub fn port(&self) -> (port: u16)
        ensures
            port == self.port,
    {
        self.port
    }
}

} // verus!
