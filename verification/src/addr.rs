//! Network addresses as plain values.

use vstd::prelude::*;

verus! {

/// An address in the form in which tables are keyed: the IP version (4 or 6) and the address
/// bits, most significant byte first.
pub type IpKey = (u8, u128);

/// Whether a table key is the key of some address.
pub open spec fn is_ip_key(key: IpKey) -> bool {
    key.0 == 6 || (key.0 == 4 && key.1 < 0x1_0000_0000)
}

/// An IP address.
#[derive(Clone, Copy, Debug, PartialEq, Eq, Structural)]
pub enum IpAddr {
    /// The four octets of an IPv4 address, in network order.
    V4(u8, u8, u8, u8),
    /// The 128 bits of an IPv6 address, in network order.
    V6(u128),
}

impl IpAddr {
    /// The table key of the address.
    pub open spec fn spec_key(self) -> IpKey {
        match self {
            IpAddr::V4(a, b, c, d) => (
                4u8,
                (a * 0x100_0000 + b * 0x1_0000 + c * 0x100 + d) as u128,
            ),
            IpAddr::V6(bits) => (6u8, bits),
        }
    }

    /// The table key of the address.
    pub fn key(&self) -> (key: IpKey)
        ensures
            key == self.spec_key(),
            is_ip_key(key),
    {
        match *self {
            IpAddr::V4(a, b, c, d) => (
                4,
                a as u128 * 0x100_0000 + b as u128 * 0x1_0000 + c as u128 * 0x100 + d as u128,
            ),
            IpAddr::V6(bits) => (6, bits),
        }
    }

    /// The address that a table key stands for.
    pub fn from_key(key: IpKey) -> (ip: IpAddr)
        ensures
            is_ip_key(key) ==> ip.spec_key() == key,
            forall|known: IpAddr| #[trigger] known.spec_key() == key ==> ip == known,
    {
        let (version, bits) = key;
        let ip = if version == 4 {
            IpAddr::V4(
                (bits / 0x100_0000 % 0x100) as u8,
                (bits / 0x1_0000 % 0x100) as u8,
                (bits / 0x100 % 0x100) as u8,
                (bits % 0x100) as u8,
            )
        } else {
            IpAddr::V6(bits)
        };
        proof {
            assert forall|known: IpAddr| #[trigger] known.spec_key() == key implies ip
                == known by {
                if let IpAddr::V4(a, b, c, d) = known {
                    lemma_octets_of_bits(a, b, c, d);
                }
            }
        }
        ip
    }

    /// 127.0.0.0/8 and ::1.
    pub open spec fn spec_is_loopback(self) -> bool {
        match self {
            IpAddr::V4(a, _, _, _) => a == 127,
            IpAddr::V6(bits) => bits == 1,
        }
    }

    /// Whether the address is a loopback address: 127.0.0.0/8 or ::1.
    pub fn is_loopback(&self) -> (yes: bool)
        ensures
            yes == self.spec_is_loopback(),
    {
        match *self {
            IpAddr::V4(a, _, _, _) => a == 127,
            IpAddr::V6(bits) => bits == 1,
        }
    }

    /// 0.0.0.0 and ::.
    pub open spec fn spec_is_unspecified(self) -> bool {
        self == IpAddr::V4(0, 0, 0, 0) || self == IpAddr::V6(0)
    }

    /// Whether the address is the unspecified address: 0.0.0.0 or ::.
    pub fn is_unspecified(&self) -> (yes: bool)
        ensures
            yes == self.spec_is_unspecified(),
    {
        match *self {
            IpAddr::V4(a, b, c, d) => a == 0 && b == 0 && c == 0 && d == 0,
            IpAddr::V6(bits) => bits == 0,
        }
    }
}

/// The octets of an IPv4 address are the base-256 digits of its bits.
proof fn lemma_octets_of_bits(a: u8, b: u8, c: u8, d: u8)
    ensures
        ({
            let bits = a * 0x100_0000 + b * 0x1_0000 + c * 0x100 + d;
            &&& bits / 0x100_0000 % 0x100 == a
            &&& bits / 0x1_0000 % 0x100 == b
            &&& bits / 0x100 % 0x100 == c
            &&& bits % 0x100 == d
        }),
{
    let bits = a * 0x100_0000 + b * 0x1_0000 + c * 0x100 + d;
    assert(bits / 0x100_0000 == a);
    assert(bits / 0x1_0000 == a * 0x100 + b);
    assert(bits / 0x100 == a * 0x1_0000 + b * 0x100 + c);
}

/// Two addresses with the same table key are the same address.
pub proof fn law_key_is_injective(x: IpAddr, y: IpAddr)
    requires
        x.spec_key() == y.spec_key(),
    ensures
        x == y,
{
    if let (IpAddr::V4(a, b, c, d), IpAddr::V4(e, f, g, h)) = (x, y) {
        lemma_octets_of_bits(a, b, c, d);
        lemma_octets_of_bits(e, f, g, h);
    }
}

/// The address and port of a UDP or TCP peer. Flow information and scope are those of an IPv6
/// peer; for IPv4 both are 0.
#[derive(Clone, Copy, Debug, PartialEq, Eq, Structural)]
pub struct SocketAddr {
    pub ip: IpAddr,
    pub port: u16,
    pub flowinfo: u32,
    pub scope_id: u32,
}

impl SocketAddr {
    /// The peer at `ip` and `port`, without flow information or scope.
    pub fn new(ip: IpAddr, port: u16) -> (addr: Self)
        ensures
            addr == (SocketAddr { ip, port, flowinfo: 0, scope_id: 0 }),
    {
        SocketAddr { ip, port, flowinfo: 0, scope_id: 0 }
    }

    /// The IPv4 peer `a.b.c.d:port`.
    pub fn v4(a: u8, b: u8, c: u8, d: u8, port: u16) -> (addr: Self)
        ensures
            addr == (SocketAddr { ip: IpAddr::V4(a, b, c, d), port, flowinfo: 0, scope_id: 0 }),
    {
        SocketAddr::new(IpAddr::V4(a, b, c, d), port)
    }
}

/// A source address that a tunnel refuses: loopback, unspecified, or port 0.
pub open spec fn spec_is_invalid_source(addr: SocketAddr) -> bool {
    addr.ip.spec_is_loopback() || addr.ip.spec_is_unspecified() || addr.port == 0
}

/// Whether a datagram with this source address must be refused.
pub fn is_invalid_source(addr: &SocketAddr) -> (yes: bool)
    ensures
        yes == spec_is_invalid_source(*addr),
{
    addr.ip.is_loopback() || addr.ip.is_unspecified() || addr.port == 0
}

/// An address that packets can come from: not loopback, unspecified, broadcast or multicast, and
/// not port 0.
pub open spec fn is_routable(addr: SocketAddr) -> bool {
    &&& match addr.ip {
        IpAddr::V4(a, b, c, d) => {
            &&& a != 127
            &&& !(a == 0 && b == 0 && c == 0 && d == 0)
            &&& !(a == 255 && b == 255 && c == 255 && d == 255)
            &&& !(224 <= a <= 239)
        },
        IpAddr::V6(bits) => bits != 0 && bits != 1 && bits
            < 0xff00_0000_0000_0000_0000_0000_0000_0000,
    }
    &&& addr.port != 0
}

/// `udp_relay_core::validate_address`: false for loopback, unspecified, broadcast and multicast
/// addresses and for port 0, and true otherwise.
#[verifier::external_body]
pub(crate) fn validate_address(addr: &SocketAddr) -> (valid: bool)
    ensures
        valid == is_routable(*addr),
{
    match addr.ip {
        IpAddr::V4(a, b, c, d) => udp_relay_core::validate_address(
            &([a, b, c, d], addr.port).into(),
        ),
        IpAddr::V6(bits) => udp_relay_core::validate_address(
            &(bits.to_be_bytes(), addr.port).into(),
        ),
    }
}

/// The key of an IPv4 address is its four octets in base 256, and that of an IPv6 address its
/// bits; keys of the two kinds are never the same, and every key of an address is told as one.
pub proof fn law_key_is_the_address(a: u8, b: u8, c: u8, d: u8, bits: u128)
    ensures
        IpAddr::V4(a, b, c, d).spec_key().0 == 4,
        IpAddr::V4(a, b, c, d).spec_key().1 == 256 * (256 * (256 * a + b) + c) + d,
        IpAddr::V6(bits).spec_key() == (6u8, bits),
        is_ip_key(IpAddr::V4(a, b, c, d).spec_key()),
        is_ip_key(IpAddr::V6(bits).spec_key()),
{
}

/// Packets can come from any address but those of the own machine, no machine, all machines and
/// groups of machines, and from any port but 0.
pub proof fn law_where_packets_can_come_from(a: u8, b: u8, c: u8, d: u8, bits: u128, port: u16)
    ensures
        ({
            let v4 = SocketAddr { ip: IpAddr::V4(a, b, c, d), port, flowinfo: 0, scope_id: 0 };
            let v6 = SocketAddr { ip: IpAddr::V6(bits), port, flowinfo: 0, scope_id: 0 };
            let loopback = a == 127;
            let unspecified = a == 0 && b == 0 && c == 0 && d == 0;
            let broadcast = a == 255 && b == 255 && c == 255 && d == 255;
            let multicast = 224 <= a < 240;
            &&& is_routable(v4) <==> port != 0 && !loopback && !unspecified && !broadcast
                && !multicast
            &&& is_routable(v6) <==> port != 0 && bits > 1 && bits
                < 0xff00_0000_0000_0000_0000_0000_0000_0000
            &&& spec_is_invalid_source(v4) <==> port == 0 || loopback || unspecified
            &&& spec_is_invalid_source(v6) <==> port == 0 || bits == 0 || bits == 1
        }),
{
}

} // verus!
