//! The peer-to-peer service: tells each peer the address that its packets come from.

use vstd::prelude::*;

use crate::addr::{is_routable, validate_address, IpAddr, SocketAddr};
use crate::metrics::{Counters, Metrics};
use crate::net::constants::STUN_ID;
use crate::packet::{be_i16, read_be_i16};
use crate::rate_limiter::{asked, request_limits, RateLimiter, Throttling};
use crate::stun::{
    has_stun_id, law_reply_layout, random_bytes, reply_bytes, stamp, stamped, write_address,
    REQUIRED_PACKET_SIZE,
};

verus! {

/// Milliseconds after which the requests of all addresses are forgotten.
pub const COUNTER_RESET_INTERVAL_MS: u64 = 60_000;

/// Requests that an address can make in a minute.
pub const MAX_REQUESTS_PER_IP: u32 = 20;

/// Number of workers that receive packets, on so many processors: 1 or 2.
pub fn worker_count(cpus: usize) -> (n: usize)
    ensures
        n == if cpus < 2 {
            1int
        } else {
            2int
        },
{
    if cpus < 2 {
        1
    } else {
        2
    }
}

/// Whether a packet of so many bytes is handled.
pub fn is_handled(size: usize) -> (yes: bool)
    ensures
        yes == (size == REQUIRED_PACKET_SIZE),
{
    size == REQUIRED_PACKET_SIZE
}

/// The octets that a reply tells: those of an IPv4 address, and zeros for any other.
pub open spec fn told_octets(ip: IpAddr) -> (u8, u8, u8, u8) {
    match ip {
        IpAddr::V4(a, b, c, d) => (a, b, c, d),
        IpAddr::V6(_) => (0, 0, 0, 0),
    }
}

/// The counters after a request that is or is not within the limit of its address.
pub open spec fn counted(counters: Counters, allowed: bool) -> Counters {
    if allowed {
        Counters { p2p_requests: counters.p2p_requests.wrapping_add(1), ..counters }
    } else {
        Counters { rate_limit_hits: counters.rate_limit_hits.wrapping_add(1), ..counters }
    }
}

/// A request that is within the limit of its address is answered if it starts with the STUN ID.
pub open spec fn is_answered(packet: Seq<u8>, allowed: bool) -> bool {
    allowed && be_i16(packet[0], packet[1]) == STUN_ID
}

/// The buffer of a worker, whose bytes are sent as the reply.
pub struct ReplyBuffer {
    content: [u8; 40],
}

impl View for ReplyBuffer {
    type V = Seq<u8>;

    closed spec fn view(&self) -> Seq<u8> {
        self.content@
    }
}

impl ReplyBuffer {
    /// The buffer that is made of the given noise.
    pub fn with_noise(noise: [u8; 40]) -> (buffer: Self)
        ensures
            buffer@ == stamped(noise@),
            has_stun_id(buffer@),
    {
        ReplyBuffer { content: stamp(noise) }
    }

    /// A buffer of random bytes with the STUN ID in its place.
    pub fn new() -> (buffer: Self)
        ensures
            has_stun_id(buffer@),
    {
        ReplyBuffer::with_noise(random_bytes())
    }

    /// The bytes of the buffer.
    pub fn content(&self) -> (content: [u8; 40])
        ensures
            content@ == self@,
    {
        self.content
    }
}

/// The peer-to-peer service.
pub struct PeerToPeer {
    port: u16,
    rate_limiter: RateLimiter,
}

/// The service: its port and the requests of each address.
pub struct Peers {
    pub port: u16,
    pub requests: Throttling,
}

impl View for PeerToPeer {
    type V = Peers;

    closed spec fn view(&self) -> Peers {
        Peers { port: self.port, requests: self.rate_limiter@ }
    }
}

impl PeerToPeer {
    /// A service for the given port.
    pub fn new(port: u16) -> (service: Self)
        ensures
            service@ == (Peers {
                port,
                requests: Throttling::fresh(request_limits(60, MAX_REQUESTS_PER_IP)),
            }),
            service@.requests.limits.valid(),
            service@.requests.limits.max_tokens == 20,
            service@.requests.limits.refill_interval_ms == 60_000,
    {
        PeerToPeer { port, rate_limiter: RateLimiter::new(60, MAX_REQUESTS_PER_IP) }
    }

    /// The port of the service.
    pub fn port(&self) -> (port: u16)
        ensures
            port == self@.port,
    {
        self.port
    }

    /// Handles a request from an address that packets can come from, given whether it is within
    /// the limit of that address. Comes back with whether the buffer is to be sent.
    pub fn on_request(
        packet: &[u8],
        from: &SocketAddr,
        allowed: bool,
        buffer: &mut ReplyBuffer,
        metrics: &mut Metrics,
    ) -> (answered: bool)
        requires
            packet@.len() >= 2,
            has_stun_id(old(buffer)@),
        ensures
            has_stun_id(final(buffer)@),
            answered == is_answered(packet@, allowed),
            final(buffer)@ == if answered {
                reply_bytes(old(buffer)@, told_octets(from.ip), from.port)
            } else {
                old(buffer)@
            },
            *final(metrics) == old(metrics).with_counters(counted(old(metrics).counters, allowed)),
            answered == (allowed && packet@[0] * 256 + packet@[1] == 26_262),
            answered ==> (from.ip matches IpAddr::V4(a, b, c, d) ==> final(buffer)@[0] ^ 0x20u8 == a
                && final(buffer)@[1] ^ 0x20u8 == b && final(buffer)@[2] ^ 0x20u8 == c
                && final(buffer)@[3] ^ 0x20u8 == d),
            answered ==> (final(buffer)@[4] ^ 0x20u8) * 256 + (final(buffer)@[5] ^ 0x20u8)
                == from.port,
    {
        proof {
            law_reply_layout(old(buffer)@, told_octets(from.ip), from.port, 6);
        }
        if !allowed {
            metrics.counters.rate_limit_hits = metrics.counters.rate_limit_hits.wrapping_add(1);
            return false;
        }
        metrics.counters.p2p_requests = metrics.counters.p2p_requests.wrapping_add(1);
        if read_be_i16(packet[0], packet[1]) != STUN_ID {
            return false;
        }
        let octets: (u8, u8, u8, u8) = match from.ip {
            IpAddr::V4(a, b, c, d) => (a, b, c, d),
            IpAddr::V6(_) => (0, 0, 0, 0),
        };
        write_address(&mut buffer.content, octets, from.port);
        true
    }

    /// Handles a packet. Comes back with whether the buffer is to be sent to where it came from.
    pub fn on_receive(
        &mut self,
        packet: &[u8],
        from: &SocketAddr,
        buffer: &mut ReplyBuffer,
        metrics: &mut Metrics,
    ) -> (answered: bool)
        requires
            packet@.len() >= 2,
            has_stun_id(old(buffer)@),
            old(self)@.requests.limits.valid(),
        ensures
            has_stun_id(final(buffer)@),
            final(self)@.port == old(self)@.port,
            final(self)@.requests.limits == old(self)@.requests.limits,
            !is_routable(*from) ==> !answered && final(self)@ == old(self)@ && final(buffer)@
                == old(buffer)@ && *final(metrics) == *old(metrics),
            is_routable(*from) ==> exists|allowed: bool|
                {
                    &&& #[trigger] asked(
                        old(self)@.requests,
                        final(self)@.requests,
                        from.ip.spec_key(),
                        allowed,
                    )
                    &&& answered == is_answered(packet@, allowed)
                    &&& *final(metrics) == old(metrics).with_counters(
                        counted(old(metrics).counters, allowed),
                    )
                },
            answered ==> final(buffer)@ == reply_bytes(
                old(buffer)@,
                told_octets(from.ip),
                from.port,
            ),
            !answered ==> final(buffer)@ == old(buffer)@,
            answered ==> packet@[0] * 256 + packet@[1] == 26_262,
            answered ==> (from.ip matches IpAddr::V4(a, b, c, d) ==> final(buffer)@[0] ^ 0x20u8 == a
                && final(buffer)@[1] ^ 0x20u8 == b && final(buffer)@[2] ^ 0x20u8 == c
                && final(buffer)@[3] ^ 0x20u8 == d),
            answered ==> (final(buffer)@[4] ^ 0x20u8) * 256 + (final(buffer)@[5] ^ 0x20u8)
                == from.port,
    {
        if !validate_address(from) {
            return false;
        }
        let allowed = self.rate_limiter.check_and_increment(&from.ip);
        PeerToPeer::on_request(packet, from, allowed, buffer, metrics)
    }

    /// Counts a reply that has been sent, if it could be sent.
    pub fn on_sent(sent: bool, metrics: &mut Metrics)
        ensures
            *final(metrics) == if sent {
                old(metrics).with_counters(
                    Counters {
                        p2p_responses: old(metrics).counters.p2p_responses.wrapping_add(1),
                        ..old(metrics).counters
                    },
                )
            } else {
                *old(metrics)
            },
    {
        if sent {
            metrics.counters.p2p_responses = metrics.counters.p2p_responses.wrapping_add(1);
        }
    }

    /// Forgets the requests of all addresses.
    pub fn reset_requests(&mut self)
        ensures
            final(self)@ == (Peers {
                requests: Throttling::fresh(old(self)@.requests.limits),
                ..old(self)@
            }),
    {
        self.rate_limiter.reset();
    }
}

/// A peer with an IPv4 address is told that address and its port: it finds them by taking the mask
/// 0x20 off the first six bytes of the reply. Any other peer is told zeros for the address.
pub proof fn law_peer_is_told_its_own_address(
    buffer: Seq<u8>,
    from: SocketAddr,
    a: u8,
    b: u8,
    c: u8,
    d: u8,
)
    requires
        has_stun_id(buffer),
    ensures
        ({
            let reply = reply_bytes(buffer, told_octets(from.ip), from.port);
            &&& reply.len() == 40
            &&& from.ip == IpAddr::V4(a, b, c, d) ==> reply[0] ^ 0x20u8 == a && reply[1] ^ 0x20u8
                == b && reply[2] ^ 0x20u8 == c && reply[3] ^ 0x20u8 == d
            &&& from.ip is V6 ==> reply[0] == 0x20 && reply[1] == 0x20 && reply[2] == 0x20
                && reply[3] == 0x20
            &&& (reply[4] ^ 0x20u8) * 256 + (reply[5] ^ 0x20u8) == from.port
            &&& reply[6] * 256 + reply[7] == 26_262
            &&& reply.skip(8) == buffer.skip(8)
        }),
{
    law_reply_layout(buffer, told_octets(from.ip), from.port, 6);
    law_reply_layout(buffer, told_octets(from.ip), from.port, 7);
    let reply = reply_bytes(buffer, told_octets(from.ip), from.port);
    assert(0u8 ^ 0x20u8 == 0x20u8) by (bit_vector);
    assert forall|i: int| 8 <= i < 40 implies reply[i] == buffer[i] by {
        law_reply_layout(buffer, told_octets(from.ip), from.port, i);
    }
    assert(reply.skip(8) =~= buffer.skip(8));
}

/// A request is answered exactly if it is within the limit and starts with 26262, high byte first.
/// Within the limit it counts as a request, answered or not, and otherwise as one over the limit.
pub proof fn law_requests_with_the_id_are_answered(
    packet: Seq<u8>,
    allowed: bool,
    counters: Counters,
)
    requires
        packet.len() >= 2,
    ensures
        is_answered(packet, allowed) <==> allowed && packet[0] * 256 + packet[1] == 26_262,
        counted(counters, true) == (Counters {
            p2p_requests: counters.p2p_requests.wrapping_add(1),
            ..counters
        }),
        counted(counters, false) == (Counters {
            rate_limit_hits: counters.rate_limit_hits.wrapping_add(1),
            ..counters
        }),
{
}

} // verus!
