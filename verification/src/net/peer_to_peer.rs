//! Peer-to-peer service: tells clients their own address for NAT traversal.

use vstd::prelude::*;

use crate::addr::{is_invalid_source, spec_is_invalid_source, IpAddr, IpKey, SocketAddr};
use crate::clock::MonotonicClock;
use crate::net::constants::STUN_ID;
use crate::net::rate_limiter::{
    law_request_is_granted_if_tokens_suffice, requested, Bucket, IpRateLimiterManager, LimiterPool,
    MemoryOrdering, RateLimiter, RateLimiterConfig,
};
use crate::net::receive_loop::{ReceiveAction, ReceiveEvent};
use crate::packet::{be_i16, copy_of, read_be_i16, Datagram};
use crate::stun::{
    has_stun_id, law_reply_layout, random_bytes, reply_bytes, stamp, write_address,
    REQUIRED_PACKET_SIZE,
};

verus! {

/// The most packets processed at once.
pub const MAX_CONCURRENT_PROCESSING: usize = 1000;

/// Size of the receive buffer.
pub const MAX_PACKET_SIZE: usize = 64;

/// Milliseconds to wait for a packet, or to send one.
pub const UDP_OPERATION_TIMEOUT_MS: u64 = 100;

/// Milliseconds between two reports of the counters.
pub const METRICS_INTERVAL_MS: u64 = 60_000;

/// Length of the interval in milliseconds.
pub const DEFAULT_COUNTER_RESET_INTERVAL_MS: u64 = 60_000;

/// Requests that one address may send in an interval.
pub const DEFAULT_MAX_REQUESTS_PER_IP: usize = 20;

/// Requests that all addresses together may send in an interval.
pub const DEFAULT_MAX_REQUESTS_GLOBAL: usize = 5000;

/// Configuration of the service.
#[derive(Debug, Clone, Copy, PartialEq, Eq, Structural)]
pub struct PeerToPeerConfig {
    /// Port of the service.
    pub port: u16,
    /// Requests that one address may send in an interval.
    pub max_requests_per_ip: usize,
    /// Requests that all addresses together may send in an interval.
    pub max_requests_global: usize,
    /// Length of the interval in milliseconds.
    pub reset_interval_ms: u64,
    /// The most packets processed at once.
    pub max_concurrent_processing: usize,
}

impl PeerToPeerConfig {
    /// The configuration that applies when nothing else is asked for.
    pub open spec fn defaults() -> PeerToPeerConfig {
        PeerToPeerConfig {
            port: 8054,
            max_requests_per_ip: DEFAULT_MAX_REQUESTS_PER_IP,
            max_requests_global: DEFAULT_MAX_REQUESTS_GLOBAL,
            reset_interval_ms: DEFAULT_COUNTER_RESET_INTERVAL_MS,
            max_concurrent_processing: MAX_CONCURRENT_PROCESSING,
        }
    }
}

impl Default for PeerToPeerConfig {
    /// The configuration that applies when nothing else is asked for.
    fn default() -> (config: Self)
        ensures
            config == PeerToPeerConfig::defaults(),
    {
        PeerToPeerConfig {
            port: 8054,
            max_requests_per_ip: DEFAULT_MAX_REQUESTS_PER_IP,
            max_requests_global: DEFAULT_MAX_REQUESTS_GLOBAL,
            reset_interval_ms: DEFAULT_COUNTER_RESET_INTERVAL_MS,
            max_concurrent_processing: MAX_CONCURRENT_PROCESSING,
        }
    }
}

/// Prepared replies and whose turn it is.
pub struct Replies {
    pub buffers: Seq<[u8; 40]>,
    pub turn: usize,
}

impl Replies {
    /// Every prepared reply has the STUN ID in its place.
    pub open spec fn wf(self) -> bool {
        forall|i: int| 0 <= i < self.buffers.len() ==> has_stun_id((#[trigger] self.buffers[i])@)
    }

    /// The reply whose turn it is.
    pub open spec fn current(self) -> [u8; 40] {
        self.buffers[self.turn as int % self.buffers.len() as int]
    }

    /// The next reply has its turn.
    pub open spec fn advanced(self) -> Replies {
        Replies { turn: self.turn.wrapping_add(1), ..self }
    }
}

/// Prepared replies, used in turn.
pub struct ResponseBufferPool {
    buffers: Vec<[u8; 40]>,
    index: usize,
}

impl View for ResponseBufferPool {
    type V = Replies;

    closed spec fn view(&self) -> Replies {
        Replies { buffers: self.buffers@, turn: self.index }
    }
}

impl ResponseBufferPool {
    /// Prepares `size` replies of random noise with the STUN ID in its place.
    pub fn new(size: usize) -> (pool: Self)
        ensures
            pool@.wf(),
            pool@.buffers.len() == size,
            pool@.turn == 0,
    {
        let mut buffers: Vec<[u8; 40]> = Vec::new();
        while buffers.len() < size
            invariant
                buffers@.len() <= size,
                forall|i: int| 0 <= i < buffers@.len() ==> has_stun_id((#[trigger] buffers@[i])@),
            decreases size - buffers@.len(),
        {
            buffers.push(stamp(random_bytes()));
        }
        ResponseBufferPool { buffers, index: 0 }
    }

    /// The reply whose turn it is.
    pub fn get_buffer(&mut self) -> (buffer: [u8; 40])
        requires
            old(self)@.buffers.len() > 0,
        ensures
            buffer == old(self)@.current(),
            final(self)@ == old(self)@.advanced(),
            old(self)@.wf() ==> has_stun_id(buffer@),
    {
        let turn: usize = self.index % self.buffers.len();
        self.index = self.index.wrapping_add(1);
        self.buffers[turn]
    }
}

/// Counters of the service. They start over when they have reached their largest value.
#[derive(Debug, Clone, Copy, PartialEq, Eq, Structural)]
pub struct ServiceMetrics {
    pub packets_received: u64,
    pub packets_processed: u64,
    pub packets_rate_limited: u64,
    pub packets_invalid: u64,
    pub processing_errors: u64,
}

impl ServiceMetrics {
    /// Nothing has been counted.
    pub fn new() -> (metrics: Self)
        ensures
            metrics == ServiceMetrics::zero(),
    {
        ServiceMetrics {
            packets_received: 0,
            packets_processed: 0,
            packets_rate_limited: 0,
            packets_invalid: 0,
            processing_errors: 0,
        }
    }

    /// Nothing has been counted.
    pub open spec fn zero() -> ServiceMetrics {
        ServiceMetrics {
            packets_received: 0,
            packets_processed: 0,
            packets_rate_limited: 0,
            packets_invalid: 0,
            processing_errors: 0,
        }
    }

    pub open spec fn with_received(self) -> ServiceMetrics {
        ServiceMetrics { packets_received: self.packets_received.wrapping_add(1), ..self }
    }

    pub open spec fn with_processed(self) -> ServiceMetrics {
        ServiceMetrics { packets_processed: self.packets_processed.wrapping_add(1), ..self }
    }

    pub open spec fn with_rate_limited(self) -> ServiceMetrics {
        ServiceMetrics { packets_rate_limited: self.packets_rate_limited.wrapping_add(1), ..self }
    }

    pub open spec fn with_invalid(self) -> ServiceMetrics {
        ServiceMetrics { packets_invalid: self.packets_invalid.wrapping_add(1), ..self }
    }

    pub open spec fn with_error(self) -> ServiceMetrics {
        ServiceMetrics { processing_errors: self.processing_errors.wrapping_add(1), ..self }
    }
}

/// Public counters of the service.
#[derive(Debug, Clone, Copy, PartialEq, Eq, Structural)]
pub struct P2PMetrics {
    pub packets_received: u64,
    pub packets_processed: u64,
    pub packets_rate_limited: u64,
    pub packets_invalid: u64,
    pub processing_errors: u64,
    pub active_ips: usize,
}

/// State of the service.
pub struct P2PState {
    pub config: PeerToPeerConfig,
    /// Request limits of each address.
    pub requests: LimiterPool,
    /// Request limit of all addresses together.
    pub shared_requests: Bucket,
    pub replies: Replies,
    pub counters: ServiceMetrics,
    /// The clock that times are read from.
    pub clock: MonotonicClock,
}

/// A limit of `max` tokens that is restored every `interval_ms` milliseconds.
pub open spec fn limit_config(max: usize, interval_ms: u64) -> RateLimiterConfig {
    RateLimiterConfig {
        max_tokens: max as u32,
        refill_rate: max as u32,
        refill_interval_ms: interval_ms,
        ordering: MemoryOrdering::Relaxed,
    }
}

impl P2PState {
    /// The limits are valid, and go by the clock of the service.
    pub open spec fn wf(self) -> bool {
        &&& self.requests.wf()
        &&& self.requests.clock == self.clock
        &&& self.shared_requests.wf()
        &&& self.shared_requests.clock == self.clock
        &&& self.replies.wf()
    }

    /// Each address may send at least one request, and there is a reply to it.
    pub open spec fn serving(self) -> bool {
        self.requests.config.valid() && self.replies.buffers.len() > 0
    }

    pub open spec fn count(self, counters: ServiceMetrics) -> P2PState {
        P2PState { counters, ..self }
    }
}

/// A request from `ip` turns `before` into `after` and is allowed or not. The limit of all
/// addresses together is asked first; when it refuses, the address is not charged.
pub open spec fn rate_checked(
    before: P2PState,
    after: P2PState,
    ip: IpKey,
    now: u64,
    allowed: bool,
) -> bool {
    let shared = before.shared_requests;
    &&& after.shared_requests == shared.after_request(1, shared.age(now))
    &&& if shared.grants(1, shared.age(now)) {
        requested(before.requests, after.requests, ip, 1, now, allowed)
    } else {
        !allowed && after.requests == before.requests
    }
    &&& after == (P2PState {
        requests: after.requests,
        shared_requests: after.shared_requests,
        ..before
    })
}

/// What the receive loop does next, and the counters afterwards.
pub open spec fn receive_step(
    counters: ServiceMetrics,
    event: ReceiveEvent,
) -> (ReceiveAction, ServiceMetrics) {
    match event {
        ReceiveEvent::Shutdown => (ReceiveAction::Stop, counters),
        ReceiveEvent::Packet(size) => if size == REQUIRED_PACKET_SIZE {
            (ReceiveAction::AskPermit, counters.with_received())
        } else {
            (ReceiveAction::Wait, counters.with_received().with_invalid())
        },
        ReceiveEvent::Permit(free) => if free {
            (ReceiveAction::Process, counters)
        } else {
            (ReceiveAction::Wait, counters)
        },
        ReceiveEvent::Failed => (ReceiveAction::Wait, counters.with_error()),
        ReceiveEvent::TimedOut => (ReceiveAction::Wait, counters),
    }
}

/// What a request leads to: the state afterwards, and the reply.
pub open spec fn request_handled(
    before: P2PState,
    after: P2PState,
    data: Seq<u8>,
    addr: SocketAddr,
    now: u64,
    reply: Option<Datagram>,
) -> bool {
    match addr.ip {
        IpAddr::V4(a, b, c, d) if !spec_is_invalid_source(addr) => {
            exists|checked: P2PState, allowed: bool| #[trigger]
                rate_checked(before, checked, addr.ip.spec_key(), now, allowed) && if !allowed {
                    &&& after == checked.count(before.counters.with_rate_limited())
                    &&& reply is None
                } else if be_i16(data[0], data[1]) != STUN_ID {
                    &&& after == checked.count(before.counters.with_invalid())
                    &&& reply is None
                } else {
                    &&& after == (P2PState { replies: before.replies.advanced(), ..checked })
                    &&& reply matches Some(datagram) && datagram.to == addr && datagram.payload@
                        == reply_bytes(before.replies.current()@, (a, b, c, d), addr.port)
                }
        },
        _ => after == before.count(before.counters.with_invalid()) && reply is None,
    }
}

/// Peer-to-peer service.
pub struct PeerToPeerService {
    config: PeerToPeerConfig,
    per_ip_manager: IpRateLimiterManager,
    global_limiter: RateLimiter,
    buffer_pool: ResponseBufferPool,
    metrics: ServiceMetrics,
    clock: MonotonicClock,
}

impl View for PeerToPeerService {
    type V = P2PState;

    closed spec fn view(&self) -> P2PState {
        P2PState {
            config: self.config,
            requests: self.per_ip_manager@,
            shared_requests: self.global_limiter@,
            replies: self.buffer_pool@,
            counters: self.metrics,
            clock: self.clock,
        }
    }
}

impl PeerToPeerService {
    /// A service with the default configuration but for the port.
    pub fn new(port: u16) -> (service: Self)
        ensures
            service@.wf(),
            service@.serving(),
            service@.config == (PeerToPeerConfig { port, ..PeerToPeerConfig::defaults() }),
            service@.requests == LimiterPool::fresh(
                limit_config(DEFAULT_MAX_REQUESTS_PER_IP, DEFAULT_COUNTER_RESET_INTERVAL_MS),
                service@.clock,
            ),
            service@.shared_requests == Bucket::full(
                limit_config(DEFAULT_MAX_REQUESTS_GLOBAL, DEFAULT_COUNTER_RESET_INTERVAL_MS),
                service@.clock,
                0,
            ),
            service@.replies.buffers.len() == 1000,
            service@.replies.turn == 0,
            service@.counters == ServiceMetrics::zero(),
    {
        let config = PeerToPeerConfig::default();
        PeerToPeerService::with_config(PeerToPeerConfig { port, ..config })
    }

    /// A service with the given configuration.
    pub fn with_config(config: PeerToPeerConfig) -> (service: Self)
        requires
            config.max_requests_global as u32 > 0,
            config.reset_interval_ms > 0,
        ensures
            service@.wf(),
            service@.config == config,
            service@.requests == LimiterPool::fresh(
                limit_config(config.max_requests_per_ip, config.reset_interval_ms),
                service@.clock,
            ),
            service@.shared_requests == Bucket::full(
                limit_config(config.max_requests_global, config.reset_interval_ms),
                service@.clock,
                0,
            ),
            service@.replies.buffers.len() == if config.max_concurrent_processing < 1000 {
                config.max_concurrent_processing as int
            } else {
                1000
            },
            service@.replies.turn == 0,
            service@.counters == ServiceMetrics::zero(),
    {
        let clock = MonotonicClock::start();
        let interval: u64 = config.reset_interval_ms;
        let pool_size: usize = if config.max_concurrent_processing < 1000 {
            config.max_concurrent_processing
        } else {
            1000
        };
        PeerToPeerService {
            config,
            per_ip_manager: IpRateLimiterManager::with_clock(
                Self::limit(config.max_requests_per_ip, interval),
                clock,
            ),
            global_limiter: RateLimiter::with_clock(
                Self::limit(config.max_requests_global, interval),
                clock,
                0,
            ),
            buffer_pool: ResponseBufferPool::new(pool_size),
            metrics: ServiceMetrics::new(),
            clock,
        }
    }

    fn limit(max: usize, interval_ms: u64) -> (config: RateLimiterConfig)
        ensures
            config == limit_config(max, interval_ms),
    {
        RateLimiterConfig {
            max_tokens: max as u32,
            refill_rate: max as u32,
            refill_interval_ms: interval_ms,
            ordering: MemoryOrdering::Relaxed,
        }
    }

    /// The configuration in force.
    pub fn config(&self) -> (config: PeerToPeerConfig)
        ensures
            config == self@.config,
    {
        self.config
    }

    /// Milliseconds since the service was set up.
    pub fn now_ms(&self) -> (ms: u64)
        ensures
            exists|at: std::time::Instant| ms == #[trigger] self@.clock.reading(at),
    {
        assert(self@.clock == self.clock);
        self.clock.now_ms()
    }

    /// The prepared reply whose turn it is.
    pub fn next_buffer(&mut self) -> (buffer: [u8; 40])
        requires
            old(self)@.wf(),
            old(self)@.serving(),
        ensures
            buffer == old(self)@.replies.current(),
            has_stun_id(buffer@),
            final(self)@ == (P2PState { replies: old(self)@.replies.advanced(), ..old(self)@ }),
            final(self)@.wf(),
            final(self)@.serving(),
    {
        self.buffer_pool.get_buffer()
    }

    /// Decides what the receive loop does next.
    pub fn on_event(&mut self, event: ReceiveEvent) -> (action: ReceiveAction)
        ensures
            action == receive_step(old(self)@.counters, event).0,
            final(self)@ == old(self)@.count(receive_step(old(self)@.counters, event).1),
    {
        match event {
            ReceiveEvent::Shutdown => ReceiveAction::Stop,
            ReceiveEvent::Packet(size) => {
                self.metrics.packets_received = self.metrics.packets_received.wrapping_add(1);
                if size != REQUIRED_PACKET_SIZE {
                    self.metrics.packets_invalid = self.metrics.packets_invalid.wrapping_add(1);
                    ReceiveAction::Wait
                } else {
                    ReceiveAction::AskPermit
                }
            },
            ReceiveEvent::Permit(free) => {
                if free {
                    ReceiveAction::Process
                } else {
                    ReceiveAction::Wait
                }
            },
            ReceiveEvent::Failed => {
                self.metrics.processing_errors = self.metrics.processing_errors.wrapping_add(1);
                ReceiveAction::Wait
            },
            ReceiveEvent::TimedOut => ReceiveAction::Wait,
        }
    }

    /// Handles a request, with the clock at `now`. Comes back with the reply that is to be sent.
    pub fn handle_request_at(
        &mut self,
        data: &[u8],
        remote_addr: SocketAddr,
        now: u64,
    ) -> (reply: Option<Datagram>)
        requires
            old(self)@.wf(),
            data@.len() >= 2,
            remote_addr.ip is V4 && !spec_is_invalid_source(remote_addr) ==> old(self)@.serving(),
        ensures
            final(self)@.wf(),
            final(self)@.serving() == old(self)@.serving(),
            request_handled(old(self)@, final(self)@, data@, remote_addr, now, reply),
    {
        if !self.is_valid_source_address(&remote_addr) {
            self.metrics.packets_invalid = self.metrics.packets_invalid.wrapping_add(1);
            return None;
        }
        match remote_addr.ip {
            IpAddr::V6(_) => {
                self.metrics.packets_invalid = self.metrics.packets_invalid.wrapping_add(1);
                None
            },
            IpAddr::V4(a, b, c, d) => {
                let allowed = self.check_rate_limits_at(remote_addr.ip, now);
                let ghost checked = self@;
                assert(rate_checked(
                    old(self)@,
                    checked,
                    remote_addr.ip.spec_key(),
                    now,
                    allowed,
                ));
                if !allowed {
                    self.metrics.packets_rate_limited =
                        self.metrics.packets_rate_limited.wrapping_add(1);
                    return None;
                }
                if read_be_i16(data[0], data[1]) != STUN_ID {
                    self.metrics.packets_invalid = self.metrics.packets_invalid.wrapping_add(1);
                    return None;
                }
                let mut buffer = self.buffer_pool.get_buffer();
                write_address(&mut buffer, (a, b, c, d), remote_addr.port);
                Some(Datagram { payload: copy_of(&buffer), to: remote_addr })
            },
        }
    }

    /// Records whether a reply could be sent.
    pub fn on_sent(&mut self, sent: bool)
        ensures
            final(self)@ == old(self)@.count(
                if sent {
                    old(self)@.counters.with_processed()
                } else {
                    old(self)@.counters.with_error()
                },
            ),
    {
        if sent {
            self.metrics.packets_processed = self.metrics.packets_processed.wrapping_add(1);
        } else {
            self.metrics.processing_errors = self.metrics.processing_errors.wrapping_add(1);
        }
    }

    /// Whether requests from an address are accepted.
    pub fn is_valid_source_address(&self, addr: &SocketAddr) -> (valid: bool)
        ensures
            valid == !spec_is_invalid_source(*addr),
    {
        !is_invalid_source(addr)
    }

    /// Whether a request from `ip` is within the limits, with the clock at `now`.
    pub fn check_rate_limits_at(&mut self, ip: IpAddr, now: u64) -> (allowed: bool)
        requires
            old(self)@.wf(),
            old(self)@.serving(),
        ensures
            final(self)@.wf(),
            final(self)@.serving(),
            rate_checked(old(self)@, final(self)@, ip.spec_key(), now, allowed),
    {
        if !self.global_limiter.try_acquire_n_at(1, now) {
            return false;
        }
        self.per_ip_manager.try_acquire_n_at(ip, 1, now)
    }

    /// Whether a request from `ip` is within the limits.
    pub fn check_rate_limits(&mut self, ip: IpAddr) -> (allowed: bool)
        requires
            old(self)@.wf(),
            old(self)@.serving(),
        ensures
            final(self)@.wf(),
            final(self)@.serving(),
            exists|at: std::time::Instant|
                rate_checked(
                    old(self)@,
                    final(self)@,
                    ip.spec_key(),
                    #[trigger] old(self)@.clock.reading(at),
                    allowed,
                ),
    {
        let now: u64 = self.clock.now_ms();
        self.check_rate_limits_at(ip, now)
    }

    /// Drops the limits of addresses that have not been active, with the clock at `now`, and
    /// comes back with the milliseconds to wait before this is done again.
    pub fn cleanup_requests_at(&mut self, now: u64) -> (delay_ms: u64)
        requires
            old(self)@.wf(),
        ensures
            final(self)@.wf(),
            final(self)@ == (P2PState {
                requests: old(self)@.requests.cleaned_up(now),
                ..old(self)@
            }),
            delay_ms == final(self)@.requests.next_cleanup_delay(),
    {
        self.per_ip_manager.cleanup_at(now);
        self.per_ip_manager.next_cleanup_delay_ms()
    }

    /// The counters of the service, and the number of addresses that have sent requests.
    pub fn metrics(&self) -> (metrics: P2PMetrics)
        requires
            self@.wf(),
        ensures
            metrics == (P2PMetrics {
                packets_received: self@.counters.packets_received,
                packets_processed: self@.counters.packets_processed,
                packets_rate_limited: self@.counters.packets_rate_limited,
                packets_invalid: self@.counters.packets_invalid,
                processing_errors: self@.counters.processing_errors,
                active_ips: self@.requests.buckets.len() as usize,
            }),
    {
        P2PMetrics {
            packets_received: self.metrics.packets_received,
            packets_processed: self.metrics.packets_processed,
            packets_rate_limited: self.metrics.packets_rate_limited,
            packets_invalid: self.metrics.packets_invalid,
            processing_errors: self.metrics.processing_errors,
            active_ips: self.per_ip_manager.active_ips(),
        }
    }
}

/// A reply is shorter than the request it answers, so that the service never amplifies traffic,
/// and it goes to where the request came from.
pub proof fn law_replies_do_not_amplify(
    before: P2PState,
    after: P2PState,
    data: Seq<u8>,
    addr: SocketAddr,
    now: u64,
    reply: Option<Datagram>,
)
    requires
        before.wf(),
        before.serving(),
        data.len() == REQUIRED_PACKET_SIZE,
        request_handled(before, after, data, addr, now, reply),
    ensures
        reply matches Some(datagram) ==> datagram.payload@.len() < data.len() && datagram.to
            == addr,
{
    if let IpAddr::V4(a, b, c, d) = addr.ip {
        if reply is Some {
            assert(reply->0.payload@ == reply_bytes(
                before.replies.current()@,
                (a, b, c, d),
                addr.port,
            ));
        }
    }
}

/// A reply has 40 bytes, and goes back to where the request came from. The peer finds its own
/// address and port by taking the mask 0x20 off the first six; 26262 stands behind them, and the
/// rest is that of the prepared reply whose turn it was. The next one has its turn then.
pub proof fn law_peer_is_told_its_own_address(
    before: P2PState,
    after: P2PState,
    data: Seq<u8>,
    octets: (u8, u8, u8, u8),
    addr: SocketAddr,
    now: u64,
    reply: Datagram,
    i: int,
)
    requires
        before.wf(),
        before.serving(),
        addr.ip == IpAddr::V4(octets.0, octets.1, octets.2, octets.3),
        request_handled(before, after, data, addr, now, Some(reply)),
    ensures
        reply.to == addr,
        reply.payload@.len() == 40,
        reply.payload@[0] ^ 0x20u8 == octets.0,
        reply.payload@[1] ^ 0x20u8 == octets.1,
        reply.payload@[2] ^ 0x20u8 == octets.2,
        reply.payload@[3] ^ 0x20u8 == octets.3,
        (reply.payload@[4] ^ 0x20u8) * 256 + (reply.payload@[5] ^ 0x20u8) == addr.port,
        reply.payload@[6] * 256 + reply.payload@[7] == 26_262,
        8 <= i < 40 ==> reply.payload@[i] == before.replies.buffers[before.replies.turn as int
            % before.replies.buffers.len() as int]@[i],
        after.replies.buffers == before.replies.buffers,
        before.replies.turn < usize::MAX ==> after.replies.turn == before.replies.turn + 1,
        before.replies.turn == usize::MAX ==> after.replies.turn == 0,
{
    let buffer = before.replies.current()@;
    let turn = before.replies.turn as int % before.replies.buffers.len() as int;
    assert(has_stun_id(before.replies.buffers[turn]@));
    law_reply_layout(buffer, octets, addr.port, i);
    law_reply_layout(buffer, octets, addr.port, 6);
    law_reply_layout(buffer, octets, addr.port, 7);
    assert(reply.payload@ == reply_bytes(buffer, octets, addr.port));
}

/// A request is answered exactly if it comes from an IPv4 address that packets can come from,
/// starts with 26262 (high byte first), and neither the limit of all addresses together nor that
/// of its own address refuses it. Refusals and other packets are counted, each by its reason.
pub proof fn law_requests_with_the_id_are_answered(
    before: P2PState,
    after: P2PState,
    data: Seq<u8>,
    addr: SocketAddr,
    now: u64,
    reply: Option<Datagram>,
)
    requires
        before.wf(),
        before.serving(),
        data.len() >= 2,
        request_handled(before, after, data, addr, now, reply),
    ensures
        reply is Some ==> addr.ip is V4 && !spec_is_invalid_source(addr) && data[0] * 256 + data[1]
            == 26_262,
        addr.ip is V6 || spec_is_invalid_source(addr) ==> after == (P2PState {
            counters: ServiceMetrics {
                packets_invalid: before.counters.packets_invalid.wrapping_add(1),
                ..before.counters
            },
            ..before
        }),
        addr.ip is V4 && !spec_is_invalid_source(addr) ==> exists|allowed: bool|
            {
                &&& #[trigger] rate_checked(
                    before,
                    P2PState { counters: before.counters, replies: before.replies, ..after },
                    addr.ip.spec_key(),
                    now,
                    allowed,
                )
                &&& reply is Some <==> allowed && data[0] * 256 + data[1] == 26_262
                &&& !allowed ==> after.counters == (ServiceMetrics {
                    packets_rate_limited: before.counters.packets_rate_limited.wrapping_add(1),
                    ..before.counters
                })
                &&& allowed && data[0] * 256 + data[1] != 26_262 ==> after.counters
                    == (ServiceMetrics {
                    packets_invalid: before.counters.packets_invalid.wrapping_add(1),
                    ..before.counters
                })
                &&& reply is Some ==> after.counters == before.counters
                &&& reply is None ==> after.replies == before.replies
            },
{
    if addr.ip is V4 && !spec_is_invalid_source(addr) {
        let (checked, allowed) = choose|checked: P2PState, allowed: bool| #[trigger]
            rate_checked(before, checked, addr.ip.spec_key(), now, allowed) && if !allowed {
                &&& after == checked.count(before.counters.with_rate_limited())
                &&& reply is None
            } else if be_i16(data[0], data[1]) != STUN_ID {
                &&& after == checked.count(before.counters.with_invalid())
                &&& reply is None
            } else {
                &&& after == (P2PState { replies: before.replies.advanced(), ..checked })
                &&& reply is Some
            };
        assert(checked == P2PState {
            counters: before.counters,
            replies: before.replies,
            ..after
        });
        assert(rate_checked(
            before,
            P2PState { counters: before.counters, replies: before.replies, ..after },
            addr.ip.spec_key(),
            now,
            allowed,
        ));
    }
}

/// The limit of all addresses together is asked first. If it has no token left nothing else is
/// asked; if it has, it gives one away, and the address decides with its own limit.
pub proof fn law_both_limits_hold(
    before: P2PState,
    after: P2PState,
    ip: IpKey,
    now: u64,
    allowed: bool,
)
    requires
        before.wf(),
        rate_checked(before, after, ip, now, allowed),
    ensures
        ({
            let age = before.shared_requests.age(now);
            let held = before.shared_requests.refilled(age).tokens;
            &&& held == 0 ==> !allowed && after.requests == before.requests
                && after.shared_requests.tokens == 0
            &&& held > 0 ==> after.shared_requests.tokens == held - 1 && requested(
                before.requests,
                after.requests,
                ip,
                1,
                now,
                allowed,
            )
        }),
        after.config == before.config,
        after.replies == before.replies,
        after.counters == before.counters,
        after.clock == before.clock,
{
    law_request_is_granted_if_tokens_suffice(
        before.shared_requests,
        1,
        before.shared_requests.age(now),
    );
}

/// A packet of 48 bytes is processed if there is a place for it. Packets of any other size are
/// counted as invalid, and failures as errors; only a shutdown ends the loop.
pub proof fn law_packets_of_the_size_are_processed(
    counters: ServiceMetrics,
    event: ReceiveEvent,
    size: usize,
)
    ensures
        ({
            let (action, after) = receive_step(counters, event);
            &&& action is Stop <==> event is Shutdown
            &&& action is Process <==> event == ReceiveEvent::Permit(true)
            &&& action is AskPermit <==> event == ReceiveEvent::Packet(48)
            &&& event == ReceiveEvent::Packet(48) ==> after == (ServiceMetrics {
                packets_received: counters.packets_received.wrapping_add(1),
                ..counters
            })
            &&& event == ReceiveEvent::Packet(size) && size != 48 ==> after == (ServiceMetrics {
                packets_received: counters.packets_received.wrapping_add(1),
                packets_invalid: counters.packets_invalid.wrapping_add(1),
                ..counters
            })
            &&& event is Failed ==> after == (ServiceMetrics {
                processing_errors: counters.processing_errors.wrapping_add(1),
                ..counters
            })
            &&& event is Shutdown || event is Permit || event is TimedOut ==> after == counters
        }),
{
}

/// A reply that was sent counts as a processed packet, and one that was not as an error; nothing
/// else is counted with it. A new service has counted nothing.
pub proof fn law_replies_are_counted(state: P2PState)
    ensures
        state.count(state.counters.with_processed()) == (P2PState {
            counters: ServiceMetrics {
                packets_processed: state.counters.packets_processed.wrapping_add(1),
                ..state.counters
            },
            ..state
        }),
        state.count(state.counters.with_error()) == (P2PState {
            counters: ServiceMetrics {
                processing_errors: state.counters.processing_errors.wrapping_add(1),
                ..state.counters
            },
            ..state
        }),
        ({
            let zero = ServiceMetrics::zero();
            zero.packets_received == 0 && zero.packets_processed == 0 && zero.packets_rate_limited
                == 0 && zero.packets_invalid == 0 && zero.processing_errors == 0
        }),
{
}

/// A limit of so many requests is a bucket that holds as many tokens and is full again after each
/// interval. Unless something else is asked for, that is 20 requests of each address and 5000 of
/// all together in a minute, on port 8054, and 1000 packets at once.
pub proof fn law_limits_are_per_interval(max: usize, interval_ms: u64)
    ensures
        max <= u32::MAX ==> limit_config(max, interval_ms).max_tokens == max,
        max <= u32::MAX ==> limit_config(max, interval_ms).refill_rate == max,
        limit_config(max, interval_ms).refill_interval_ms == interval_ms,
        PeerToPeerConfig::defaults() == (PeerToPeerConfig {
            port: 8054,
            max_requests_per_ip: 20,
            max_requests_global: 5000,
            reset_interval_ms: 60_000,
            max_concurrent_processing: 1000,
        }),
{
}

} // verus!
